use wavetable_designer::spectrum::{
    enforce_conjugate_symmetry, fft_clear_all, fft_clear_hf, fft_clear_lf, fft_draw_even_only,
    fft_draw_odd_only, fft_generate_saw, fft_randomize_bins, formant_shift, random_bin_count,
    smear_window, FftOperation,
};

type Bin = (f32, f32);

fn conj(b: Bin) -> Bin {
    (b.0, -b.1)
}

fn real_part(b: Bin) -> Bin {
    (b.0, 0.0)
}

fn bins(n: usize) -> Vec<Bin> {
    (0..n).map(|i| (i as f32 + 1.0, 10.0 * (i as f32 + 1.0))).collect()
}

const ZERO: Bin = (0.0, 0.0);

#[test]
fn symmetry_even_length() {
    let mut b = bins(8);
    enforce_conjugate_symmetry(&mut b, &conj, &real_part);
    assert_eq!(b[0], (1.0, 0.0));
    assert_eq!(b[1], (2.0, 20.0));
    assert_eq!(b[3], (4.0, 40.0));
    assert_eq!(b[4], (5.0, 0.0));
    assert_eq!(b[5], (4.0, -40.0));
    assert_eq!(b[7], (2.0, -20.0));
}

#[test]
fn symmetry_odd_length_mirrors_every_bin() {
    let mut b = bins(5);
    enforce_conjugate_symmetry(&mut b, &conj, &real_part);
    assert_eq!(b, vec![(1.0, 0.0), (2.0, 20.0), (3.0, 30.0), (3.0, -30.0), (2.0, -20.0)]);
}

#[test]
fn symmetry_odd_length_makes_spectrum_hermitian() {
    let mut b: Vec<Bin> = vec![ZERO, ZERO, (1.0, 0.0), ZERO, ZERO];
    enforce_conjugate_symmetry(&mut b, &conj, &real_part);
    assert_eq!(b, vec![ZERO, ZERO, (1.0, 0.0), (1.0, -0.0), ZERO]);
    for k in 0..5 {
        assert_eq!(b[(5 - k) % 5], conj(b[k]));
    }
}

#[test]
fn symmetry_of_tiny_spectra() {
    let mut empty: Vec<Bin> = Vec::new();
    enforce_conjugate_symmetry(&mut empty, &conj, &real_part);
    assert!(empty.is_empty());
    let mut one: Vec<Bin> = vec![(1.0, 2.0)];
    enforce_conjugate_symmetry(&mut one, &conj, &real_part);
    assert_eq!(one, vec![(1.0, 0.0)]);
    let mut two = bins(2);
    enforce_conjugate_symmetry(&mut two, &conj, &real_part);
    assert_eq!(two, vec![(1.0, 0.0), (2.0, 0.0)]);
    let mut three = bins(3);
    enforce_conjugate_symmetry(&mut three, &conj, &real_part);
    assert_eq!(three, vec![(1.0, 0.0), (2.0, 20.0), (2.0, -20.0)]);
}

#[test]
fn mirrors_are_conjugates_after_symmetry() {
    let mut b = bins(16);
    enforce_conjugate_symmetry(&mut b, &conj, &real_part);
    for i in 1..8 {
        assert_eq!(conj(b[i]), b[16 - i]);
    }
    let mut b = bins(15);
    enforce_conjugate_symmetry(&mut b, &conj, &real_part);
    for i in 1..=7 {
        assert_eq!(conj(b[i]), b[15 - i]);
    }
}

#[test]
fn clear_all_zeroes_everything() {
    let mut b = bins(6);
    fft_clear_all(&mut b, ZERO);
    assert!(b.iter().all(|&x| x == ZERO));
}

#[test]
fn clear_hf_zeroes_from_start_bin() {
    let mut b = bins(16);
    fft_clear_hf(&mut b, 3, ZERO, &conj, &real_part);
    assert_eq!(b[1], (2.0, 20.0));
    assert_eq!(b[2], (3.0, 30.0));
    for i in 3..8 {
        assert_eq!(b[i], ZERO);
    }
    assert_eq!(b[8], (9.0, 0.0));
    assert_eq!(b[15], (2.0, -20.0));
    assert_eq!(b[10], (0.0, -0.0));
}

#[test]
fn clear_hf_past_half_changes_nothing() {
    let mut b = bins(8);
    fft_clear_hf(&mut b, 4, ZERO, &conj, &real_part);
    assert_eq!(b, bins(8));
}

#[test]
fn clear_lf_zeroes_through_end_bin() {
    let mut b = bins(16);
    fft_clear_lf(&mut b, 2, ZERO, &conj, &real_part);
    assert_eq!(b[0], (1.0, 0.0));
    assert_eq!(b[1], ZERO);
    assert_eq!(b[2], ZERO);
    assert_eq!(b[3], (4.0, 40.0));
    assert_eq!(b[13], (4.0, -40.0));
}

#[test]
fn clear_lf_stops_at_nyquist() {
    let mut b = bins(8);
    fft_clear_lf(&mut b, 11, ZERO, &conj, &real_part);
    assert_eq!(b[0], (1.0, 0.0));
    for i in 1..8 {
        assert_eq!(b[i].0, 0.0);
    }
    let mut empty: Vec<Bin> = Vec::new();
    fft_clear_lf(&mut empty, 11, ZERO, &conj, &real_part);
    assert!(empty.is_empty());
}

#[test]
fn even_and_odd_only() {
    let mut even = bins(12);
    fft_draw_even_only(&mut even, ZERO, &conj, &real_part);
    assert_eq!(even[1], ZERO);
    assert_eq!(even[2], (3.0, 30.0));
    assert_eq!(even[3], ZERO);
    assert_eq!(even[4], (5.0, 50.0));
    assert_eq!(even[10], (3.0, -30.0));
    let mut odd = bins(12);
    fft_draw_odd_only(&mut odd, ZERO, &conj, &real_part);
    assert_eq!(odd[1], (2.0, 20.0));
    assert_eq!(odd[2], ZERO);
    assert_eq!(odd[5], (6.0, 60.0));
    // both in turn leave no harmonic
    fft_draw_even_only(&mut odd, ZERO, &conj, &real_part);
    for i in 1..6 {
        assert_eq!(odd[i], ZERO);
    }
}

#[test]
fn saw_spectrum_has_one_over_k_harmonics() {
    let mut b = bins(8);
    let harmonic = |k: usize| (0.0f32, -1.0 / k as f32);
    fft_generate_saw(&mut b, &harmonic, ZERO, &conj, &real_part);
    assert_eq!(b[0], ZERO);
    assert_eq!(b[1], (0.0, -1.0));
    assert_eq!(b[2], (0.0, -0.5));
    assert_eq!(b[4], (5.0, 0.0));
    assert_eq!(b[7], (0.0, 1.0));
    assert_eq!(b[6], (0.0, 0.5));
}

#[test]
fn randomize_uses_the_drawn_bins() {
    assert_eq!(random_bin_count(16, 4), 3);
    assert_eq!(random_bin_count(16, 100), 7);
    assert_eq!(random_bin_count(16, 0), 0);
    assert_eq!(random_bin_count(1, 5), 0);
    let mut b = bins(16);
    let random = vec![(0.5, 0.25), (0.75, -0.5), (0.1, 0.2)];
    fft_randomize_bins(&mut b, 4, &random, &conj, &real_part);
    assert_eq!(b[1], (0.5, 0.25));
    assert_eq!(b[2], (0.75, -0.5));
    assert_eq!(b[3], (0.1, 0.2));
    assert_eq!(b[4], (5.0, 50.0));
    assert_eq!(b[15], (0.5, -0.25));
}

#[test]
fn smear_windows() {
    assert_eq!(smear_window(1, 3, 10), (1, 4));
    assert_eq!(smear_window(5, 3, 10), (2, 8));
    assert_eq!(smear_window(8, 3, 10), (5, 9));
    assert_eq!(smear_window(4, 0, 10), (4, 4));
}

#[test]
fn formant_shift_moves_bins() {
    let b: Vec<u32> = (0..10).collect();
    assert_eq!(formant_shift(&b, 5, 2, 99), vec![99, 99, 99, 1, 2, 99, 99, 99, 99, 99]);
    assert_eq!(formant_shift(&b, 5, -1, 99), vec![99, 2, 3, 4, 99, 99, 99, 99, 99, 99]);
    assert_eq!(formant_shift(&b, 5, 0, 99), vec![99, 1, 2, 3, 4, 99, 99, 99, 99, 99]);
    assert_eq!(formant_shift(&b, 5, 7, 99), vec![99; 10]);
}

#[test]
fn menu_operations_use_their_fixed_bins() {
    let saw = |k: usize| (0.0f32, -1.0 / k as f32);
    let none: Vec<Bin> = Vec::new();

    let mut b = bins(32);
    FftOperation::ClearHf.apply(&mut b, &none, &saw, ZERO, &conj, &real_part);
    assert_eq!(b[10], (11.0, 110.0));
    assert_eq!(b[11], ZERO);
    assert_eq!(b[15], ZERO);

    let mut b = bins(32);
    FftOperation::ClearLf.apply(&mut b, &none, &saw, ZERO, &conj, &real_part);
    assert_eq!(b[11], ZERO);
    assert_eq!(b[12], (13.0, 130.0));

    assert_eq!(FftOperation::RandomizeLow16.random_bins_for(2048), 15);
    assert_eq!(FftOperation::RandomizeLow32.random_bins_for(2048), 31);
    assert_eq!(FftOperation::RandomizeAll.random_bins_for(2048), 1023);
    assert_eq!(FftOperation::EvenOnly.random_bins_for(2048), 0);

    let mut b = bins(64);
    let random: Vec<Bin> = (0..31).map(|i| (i as f32, 0.5)).collect();
    FftOperation::RandomizeLow32.apply(&mut b, &random, &saw, ZERO, &conj, &real_part);
    assert_eq!(b[1], (0.0, 0.5));
    assert_eq!(b[31], (30.0, 0.5));
    assert_eq!(b[32], (33.0, 0.0));
    assert_eq!(b[33], (30.0, -0.5));

    let mut b = bins(8);
    FftOperation::ClearAll.apply(&mut b, &none, &saw, ZERO, &conj, &real_part);
    assert!(b.iter().all(|&x| x == ZERO));

    let mut b = bins(8);
    FftOperation::GenerateSaw.apply(&mut b, &none, &saw, ZERO, &conj, &real_part);
    assert_eq!(b[3], (0.0, -1.0 / 3.0));
}
