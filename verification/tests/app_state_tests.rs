use wavetable_designer::app_state::{
    copy_range, copy_samples, ImportOutcome, PreviewMode, WavetableFrame, WtState, DEFAULT_GRID_COLS,
    DEFAULT_GRID_ROWS, WT_SIZE,
};

fn ramp_frame(offset: f32) -> WavetableFrame<f32> {
    let samples: Vec<f32> = (0..WT_SIZE).map(|i| offset + i as f32).collect();
    WavetableFrame::from_samples(samples)
}

fn default_state() -> WtState<f32> {
    WtState::with_defaults(&ramp_frame(0.0), 2.0, 0.0)
}

#[test]
fn preview_mode_labels() {
    assert_eq!(PreviewMode::Off.label(), "Off");
    assert_eq!(PreviewMode::EditDrone.label(), "Edit-Drone");
    assert_eq!(PreviewMode::Midi.label(), "MIDI");
}

#[test]
fn defaults_match_the_editor_start_state() {
    let state = default_state();
    assert_eq!(state.frames.len(), DEFAULT_GRID_ROWS * DEFAULT_GRID_COLS);
    assert_eq!(state.frames.len(), 64);
    assert!(state.frames[0].is_keyframe);
    assert!(state.frames[1..].iter().all(|f| !f.is_keyframe));
    assert_eq!(state.active_frame, 0);
    assert_eq!(state.grid_rows, 8);
    assert_eq!(state.grid_cols, 8);
    assert_eq!(state.fm_ratio, 2.0);
    assert_eq!(state.fm_amount, 0.0);
    assert_eq!(state.mod_shape, 0);
    assert_eq!(state.preview_mode, PreviewMode::Off);
    assert_eq!(state.preview_note, 33);
    assert_eq!(state.preview_detune_cents, 0.0);
    assert!(!state.edit_gate);
    assert_eq!(state.frames[63].raw[5], 5.0);
    assert_eq!(state.frames[63].baked[WT_SIZE - 1], (WT_SIZE - 1) as f32);
}

#[test]
fn from_samples_and_duplicate_copy_the_waveform() {
    let frame = WavetableFrame::from_samples(vec![1.0f32, -1.0, 0.5]);
    assert_eq!(frame.raw, vec![1.0, -1.0, 0.5]);
    assert_eq!(frame.baked, vec![1.0, -1.0, 0.5]);
    assert!(!frame.is_keyframe);
    let mut copy = frame.duplicate();
    copy.raw[0] = 9.0;
    assert_eq!(frame.raw[0], 1.0);
    assert_eq!(copy.baked, frame.baked);
}

#[test]
fn copy_helpers() {
    let data = vec![1u8, 2, 3, 4, 5];
    assert_eq!(copy_samples(&data), data);
    assert_eq!(copy_range(&data, 1, 4), vec![2, 3, 4]);
    assert_eq!(copy_range(&data, 2, 2), Vec::<u8>::new());
}

#[test]
fn active_frame_is_clamped_to_the_last_frame() {
    let mut state = default_state();
    state.frames[63].raw[0] = 42.0;
    state.active_frame = 500;
    assert_eq!(state.active_frame().raw[0], 42.0);
    // reading leaves the stored index alone
    assert_eq!(state.active_frame, 500);
    state.active_frame_mut().baked[1] = -3.0;
    assert_eq!(state.active_frame, 63);
    assert_eq!(state.frames[63].baked[1], -3.0);
}

#[test]
fn active_frame_in_range_is_used_as_is() {
    let mut state = default_state();
    state.active_frame = 7;
    state.active_frame_mut().is_keyframe = true;
    assert!(state.frames[7].is_keyframe);
    assert_eq!(state.active_frame, 7);
}

#[test]
fn import_of_several_frames_fills_the_leading_frames() {
    let mut state = default_state();
    state.active_frame = 12;
    let samples: Vec<f32> = (0..(3 * WT_SIZE + 100)).map(|i| -(i as f32)).collect();
    let outcome = state.import_frames(&samples);
    assert_eq!(outcome, ImportOutcome::Frames(3));
    assert_eq!(state.active_frame, 0);
    for f in 0..3 {
        assert_eq!(state.frames[f].raw, samples[f * WT_SIZE..(f + 1) * WT_SIZE].to_vec());
        assert_eq!(state.frames[f].baked, samples[f * WT_SIZE..(f + 1) * WT_SIZE].to_vec());
    }
    assert!(state.frames[0].is_keyframe);
    assert_eq!(state.frames[3].raw[1], 1.0);
}

#[test]
fn import_is_capped_by_the_table_size() {
    let mut state = WtState::with_defaults(&ramp_frame(0.0), 2.0, 0.0);
    state.frames.truncate(2);
    let samples: Vec<f32> = vec![7.0; 5 * WT_SIZE];
    assert_eq!(state.import_frames(&samples), ImportOutcome::Frames(2));
    assert_eq!(state.frames.len(), 2);
    assert!(state.frames.iter().all(|f| f.raw.iter().all(|&s| s == 7.0)));
}

#[test]
fn short_import_changes_nothing_until_resampled() {
    let mut state = default_state();
    state.active_frame = 4;
    let samples = vec![0.25f32; WT_SIZE - 1];
    assert_eq!(state.import_frames(&samples), ImportOutcome::Short);
    assert_eq!(state.active_frame, 4);
    assert_eq!(state.frames[4].raw[3], 3.0);
    let resampled = vec![0.25f32; WT_SIZE];
    state.load_active_frame(&resampled);
    assert_eq!(state.frames[4].raw, resampled);
    assert_eq!(state.frames[4].baked, resampled);
    assert_eq!(state.frames[5].raw[3], 3.0);
}

#[test]
fn export_all_concatenates_baked_frames() {
    let mut state = default_state();
    state.frames.truncate(3);
    state.frames[1].baked[0] = 100.0;
    let data = state.concat_baked();
    assert_eq!(data.len(), 3 * WT_SIZE);
    assert_eq!(data[WT_SIZE], 100.0);
    assert_eq!(data[2 * WT_SIZE + 2], 2.0);
}

#[test]
fn export_then_import_restores_every_frame() {
    let mut source = default_state();
    for (f, frame) in source.frames.iter_mut().enumerate() {
        for (i, s) in frame.baked.iter_mut().enumerate() {
            *s = (f * 10_000 + i) as f32;
        }
    }
    let exported = source.concat_baked();
    let mut target = WtState::with_defaults(&ramp_frame(-5.0), 2.0, 0.0);
    assert_eq!(target.import_frames(&exported), ImportOutcome::Frames(64));
    for f in 0..64 {
        assert_eq!(target.frames[f].raw, source.frames[f].baked);
        assert_eq!(target.frames[f].baked, source.frames[f].baked);
    }
}

#[test]
fn commit_copies_baked_into_raw() {
    let mut state = default_state();
    state.active_frame = 2;
    state.frames[2].baked[10] = 0.75;
    state.commit_active_baked();
    assert_eq!(state.frames[2].raw, state.frames[2].baked);
    assert_eq!(state.frames[2].raw[10], 0.75);
    assert_eq!(state.frames[3].raw[10], 10.0);
}
