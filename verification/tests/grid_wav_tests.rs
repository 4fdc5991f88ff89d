use wavetable_designer::grid::frame_grid_layout;
use wavetable_designer::wav::{first_channel, WavError};

#[test]
fn default_grid_shows_all_64_frames() {
    let rows = frame_grid_layout(8, 8, 64);
    assert_eq!(rows.len(), 8);
    for (r, row) in rows.iter().enumerate() {
        assert_eq!(row.clone(), (r * 8..r * 8 + 8).collect::<Vec<usize>>());
    }
}

#[test]
fn grid_rows_stop_at_the_last_frame() {
    let rows = frame_grid_layout(3, 4, 10);
    assert_eq!(rows, vec![vec![0, 1, 2, 3], vec![4, 5, 6, 7], vec![8, 9]]);
    let rows = frame_grid_layout(4, 4, 5);
    assert_eq!(rows, vec![vec![0, 1, 2, 3], vec![4], vec![], vec![]]);
}

#[test]
fn zero_sized_grid_counts_as_one_by_one() {
    assert_eq!(frame_grid_layout(0, 0, 5), vec![vec![0]]);
    assert_eq!(frame_grid_layout(2, 0, 5), vec![vec![0], vec![1]]);
    assert_eq!(frame_grid_layout(1, 3, 0), vec![Vec::<usize>::new()]);
}

#[test]
fn first_channel_of_stereo() {
    let data = vec![1.0f32, -1.0, 2.0, -2.0, 3.0, -3.0];
    assert_eq!(first_channel(&data, 2), Ok(vec![1.0, 2.0, 3.0]));
}

#[test]
fn first_channel_of_incomplete_last_frame() {
    let data = vec![1i32, 2, 3, 4, 5, 6, 7];
    assert_eq!(first_channel(&data, 3), Ok(vec![1, 4, 7]));
}

#[test]
fn zero_channels_count_as_mono() {
    let data = vec![5u8, 6, 7];
    assert_eq!(first_channel(&data, 0), Ok(vec![5, 6, 7]));
    assert_eq!(first_channel(&data, 1), Ok(vec![5, 6, 7]));
}

#[test]
fn empty_file_is_refused() {
    let data: Vec<f32> = Vec::new();
    let err = first_channel(&data, 2).unwrap_err();
    assert_eq!(err, WavError::NoSamples);
    assert_eq!(err.message(), "WAV contains no samples");
}
