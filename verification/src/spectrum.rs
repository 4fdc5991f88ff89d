use vstd::prelude::*;

verus! {

/// `conj` and `real_part` may be called on any bin.
pub open spec fn bin_ops_total<B, C: Fn(B) -> B, R: Fn(B) -> B>(conj: &C, real_part: &R) -> bool {
    &&& forall|b: B| call_requires(*conj, (b,))
    &&& forall|b: B| call_requires(*real_part, (b,))
}

/// `after` is `before` with Hermitian symmetry imposed, so that its inverse
/// transform is real: the DC bin keeps only its real part; for
/// `1 <= i <= (n - 1) / 2` bin `i` is kept and bin `n - i` becomes its conjugate;
/// when `n` is even the Nyquist bin `n / 2` keeps only its real part.
pub open spec fn symmetric_image<B, C: Fn(B) -> B, R: Fn(B) -> B>(
    before: Seq<B>,
    after: Seq<B>,
    conj: &C,
    real_part: &R,
) -> bool {
    let n = before.len() as int;
    let m = (n - 1) / 2;
    &&& after.len() == n
    &&& forall|k: int|
        0 <= k < n ==> {
            if k == 0 {
                call_ensures(*real_part, (before[0],), #[trigger] after[k])
            } else if k <= m {
                after[k] == before[k]
            } else if k < n - m {
                call_ensures(*real_part, (before[k],), after[k])
            } else {
                call_ensures(*conj, (before[n - k],), after[k])
            }
        }
}

/// Imposes Hermitian (conjugate) symmetry on a spectrum so that its inverse
/// transform is real: `bins[n - i] = conj(bins[i])` for `1 <= i <= (n - 1) / 2`,
/// the DC bin and (for even `n`) the Nyquist bin keep only their real part.
pub fn enforce_conjugate_symmetry<B: Copy, C: Fn(B) -> B, R: Fn(B) -> B>(
    bins: &mut Vec<B>,
    conj: &C,
    real_part: &R,
)
    requires
        bin_ops_total(conj, real_part),
    ensures
        symmetric_image(old(bins)@, final(bins)@, conj, real_part),
{
    let len = bins.len();
    if len == 0 {
        return;
    }
    let half = len / 2;
    let last_mirrored = (len - 1) / 2;
    let ghost before = bins@;
    let mut i: usize = 1;
    while i <= last_mirrored
        invariant
            len == bins@.len() == before.len(),
            len >= 1,
            half == len / 2,
            last_mirrored == (len - 1) / 2,
            1 <= i <= last_mirrored + 1,
            bin_ops_total(conj, real_part),
            forall|k: int| 0 <= k <= len - i ==> #[trigger] bins@[k] == before[k],
            forall|k: int|
                len - i < k < len ==> call_ensures(*conj, (before[len - k],), #[trigger] bins@[k]),
        decreases last_mirrored + 1 - i,
    {
        let mirrored = conj(bins[i]);
        bins.set(len - i, mirrored);
        i = i + 1;
    }
    let dc = real_part(bins[0]);
    bins.set(0, dc);
    if len % 2 == 0 {
        let nyquist = real_part(bins[half]);
        bins.set(half, nyquist);
    }
}

} // verus!

verus! {

/// `bins` with the bins at `first <= k < last` set to `zero`.
pub open spec fn zero_range<B>(bins: Seq<B>, first: int, last: int, zero: B) -> Seq<B> {
    Seq::new(bins.len(), |k: int| if first <= k < last { zero } else { bins[k] })
}

/// `bins` with every bin `1 <= k < n/2` whose index has parity `odd` set to `zero`.
pub open spec fn zero_parity<B>(bins: Seq<B>, odd: bool, zero: B) -> Seq<B> {
    Seq::new(
        bins.len(),
        |k: int| if 1 <= k < bins.len() / 2 && (k % 2 == 1) == odd { zero } else { bins[k] },
    )
}

/// Sets every bin to `zero`.
pub fn fft_clear_all<B: Copy>(bins: &mut Vec<B>, zero: B)
    ensures
        final(bins)@.len() == old(bins)@.len(),
        forall|k: int| 0 <= k < final(bins)@.len() ==> #[trigger] final(bins)@[k] == zero,
{
    let len = bins.len();
    let mut i: usize = 0;
    while i < len
        invariant
            len == bins@.len(),
            i <= len,
            forall|k: int| 0 <= k < i ==> #[trigger] bins@[k] == zero,
        decreases len - i,
    {
        bins.set(i, zero);
        i = i + 1;
    }
}

/// Sets the bins `first <= k < last` to `zero`.
fn zero_bins<B: Copy>(bins: &mut Vec<B>, first: usize, last: usize, zero: B)
    requires
        first <= last <= old(bins)@.len(),
    ensures
        final(bins)@ == zero_range(old(bins)@, first as int, last as int, zero),
{
    let ghost before = bins@;
    let mut i = first;
    while i < last
        invariant
            first <= i <= last <= bins@.len(),
            bins@ == zero_range(before, first as int, i as int, zero),
        decreases last - i,
    {
        bins.set(i, zero);
        i = i + 1;
    }
}

/// Clears the high frequencies: when `start_bin < n/2`, zeroes the bins
/// `start_bin <= k < n/2` and then imposes conjugate symmetry; otherwise leaves
/// the spectrum as it is.
pub fn fft_clear_hf<B: Copy, C: Fn(B) -> B, R: Fn(B) -> B>(
    bins: &mut Vec<B>,
    start_bin: usize,
    zero: B,
    conj: &C,
    real_part: &R,
)
    requires
        bin_ops_total(conj, real_part),
    ensures
        start_bin >= old(bins)@.len() / 2 ==> final(bins)@ == old(bins)@,
        start_bin < old(bins)@.len() / 2 ==> symmetric_image(
            zero_range(old(bins)@, start_bin as int, old(bins)@.len() as int / 2, zero),
            final(bins)@,
            conj,
            real_part,
        ),
{
    let len = bins.len();
    if start_bin >= len / 2 {
        return;
    }
    zero_bins(bins, start_bin, len / 2, zero);
    enforce_conjugate_symmetry(bins, conj, real_part);
}

/// The last bin that `fft_clear_lf` zeroes: `end_bin`, but at most `n/2`.
pub open spec fn clear_lf_end(len: int, end_bin: int) -> int {
    if end_bin < len / 2 { end_bin } else { len / 2 }
}

/// Clears the low frequencies: zeroes the bins `1 <= k <= min(end_bin, n/2)`
/// (the DC bin is kept) and then imposes conjugate symmetry.
pub fn fft_clear_lf<B: Copy, C: Fn(B) -> B, R: Fn(B) -> B>(
    bins: &mut Vec<B>,
    end_bin: usize,
    zero: B,
    conj: &C,
    real_part: &R,
)
    requires
        bin_ops_total(conj, real_part),
    ensures
        symmetric_image(
            zero_range(old(bins)@, 1, clear_lf_end(old(bins)@.len() as int, end_bin as int) + 1, zero),
            final(bins)@,
            conj,
            real_part,
        ),
{
    let len = bins.len();
    let end = if end_bin < len / 2 { end_bin } else { len / 2 };
    if len > 0 {
        zero_bins(bins, 1, end + 1, zero);
    } else {
        assert(zero_range(bins@, 1, 1, zero) == bins@);
    }
    enforce_conjugate_symmetry(bins, conj, real_part);
}

/// Zeroes the odd harmonics `1 <= k < n/2`, keeping the even ones, then imposes
/// conjugate symmetry.
pub fn fft_draw_even_only<B: Copy, C: Fn(B) -> B, R: Fn(B) -> B>(
    bins: &mut Vec<B>,
    zero: B,
    conj: &C,
    real_part: &R,
)
    requires
        bin_ops_total(conj, real_part),
    ensures
        symmetric_image(zero_parity(old(bins)@, true, zero), final(bins)@, conj, real_part),
{
    zero_harmonics_of_parity(bins, true, zero);
    enforce_conjugate_symmetry(bins, conj, real_part);
}

/// Zeroes the even harmonics `1 <= k < n/2`, keeping the odd ones, then imposes
/// conjugate symmetry.
pub fn fft_draw_odd_only<B: Copy, C: Fn(B) -> B, R: Fn(B) -> B>(
    bins: &mut Vec<B>,
    zero: B,
    conj: &C,
    real_part: &R,
)
    requires
        bin_ops_total(conj, real_part),
    ensures
        symmetric_image(zero_parity(old(bins)@, false, zero), final(bins)@, conj, real_part),
{
    zero_harmonics_of_parity(bins, false, zero);
    enforce_conjugate_symmetry(bins, conj, real_part);
}

/// Zeroes the bins `1 <= k < n/2` whose index is odd (`odd`) or even (`!odd`).
fn zero_harmonics_of_parity<B: Copy>(bins: &mut Vec<B>, odd: bool, zero: B)
    ensures
        final(bins)@ == zero_parity(old(bins)@, odd, zero),
{
    let ghost before = bins@;
    let len = bins.len();
    let half = len / 2;
    let mut i: usize = 1;
    while i < half
        invariant
            len == bins@.len() == before.len(),
            half == len / 2,
            1 <= i <= half || half == 0,
            forall|k: int|
                0 <= k < len ==> #[trigger] bins@[k] == if 1 <= k < i && (k % 2 == 1) == odd {
                    zero
                } else {
                    before[k]
                },
        decreases half - i,
    {
        if (i % 2 == 1) == odd {
            bins.set(i, zero);
        }
        i = i + 1;
    }
    assert(bins@ == zero_parity(before, odd, zero));
}

} // verus!

verus! {

/// The spectrum `fft_generate_saw` builds before imposing symmetry: DC set to
/// `zero`, the harmonics `1 <= k < n/2` as in `harmonics`, the rest as in `before`.
pub open spec fn saw_spectrum<B>(before: Seq<B>, harmonics: Seq<B>, zero: B) -> Seq<B> {
    Seq::new(
        before.len(),
        |k: int| if k == 0 { zero } else if k < before.len() / 2 { harmonics[k] } else { before[k] },
    )
}

/// Builds a sawtooth spectrum: harmonic `k` (for `1 <= k < n/2`) is what
/// `saw_harmonic(k)` gives (amplitude `1/k` in the plugin), the DC bin is `zero`,
/// and conjugate symmetry is then imposed.
pub fn fft_generate_saw<B: Copy, G: Fn(usize) -> B, C: Fn(B) -> B, R: Fn(B) -> B>(
    bins: &mut Vec<B>,
    saw_harmonic: &G,
    zero: B,
    conj: &C,
    real_part: &R,
)
    requires
        old(bins)@.len() > 0,
        bin_ops_total(conj, real_part),
        forall|k: usize| call_requires(*saw_harmonic, (k,)),
    ensures
        forall|k: int|
            1 <= k < old(bins)@.len() / 2 ==> call_ensures(
                *saw_harmonic,
                (k as usize,),
                #[trigger] final(bins)@[k],
            ),
        symmetric_image(saw_spectrum(old(bins)@, final(bins)@, zero), final(bins)@, conj, real_part),
{
    let ghost before = bins@;
    let len = bins.len();
    let half = len / 2;
    let mut i: usize = 1;
    while i < half
        invariant
            len == bins@.len() == before.len(),
            half == len / 2,
            1 <= i <= half || half == 0,
            forall|k: usize| call_requires(*saw_harmonic, (k,)),
            forall|k: int| 1 <= k < i ==> call_ensures(*saw_harmonic, (k as usize,), #[trigger] bins@[k]),
            forall|k: int| (k == 0 || i <= k < len) ==> #[trigger] bins@[k] == before[k],
        decreases half - i,
    {
        let harmonic = saw_harmonic(i);
        bins.set(i, harmonic);
        i = i + 1;
    }
    bins.set(0, zero);
    let ghost mid = bins@;
    enforce_conjugate_symmetry(bins, conj, real_part);
    assert(mid == saw_spectrum(before, bins@, zero)) by {
        assert forall|k: int| 0 <= k < len implies mid[k] == saw_spectrum(before, bins@, zero)[k] by {
            if 1 <= k < half {
                assert(bins@[k] == mid[k]);
            }
        }
    }
}

/// How many random bins `fft_randomize_bins` consumes: one for each `1 <= k < min(num_bins, n/2)`.
pub open spec fn random_bins_needed(len: int, num_bins: int) -> int {
    let end = if num_bins < len / 2 { num_bins } else { len / 2 };
    if end > 1 { end - 1 } else { 0 }
}

/// The number of random bins `fft_randomize_bins` needs for a spectrum of `len`
/// bins when `num_bins` low bins are to be randomized.
pub fn random_bin_count(len: usize, num_bins: usize) -> (count: usize)
    ensures
        count == random_bins_needed(len as int, num_bins as int),
{
    let end = if num_bins < len / 2 { num_bins } else { len / 2 };
    if end > 1 { end - 1 } else { 0 }
}

/// `before` with bins `1 <= k < 1 + count` replaced by `random[k - 1]`.
pub open spec fn randomized_spectrum<B>(before: Seq<B>, random: Seq<B>, count: int) -> Seq<B> {
    Seq::new(before.len(), |k: int| if 1 <= k < 1 + count { random[k - 1] } else { before[k] })
}

/// Randomizes the low bins: bin `k` for `1 <= k < min(num_bins, n/2)` becomes
/// `random[k - 1]` (random magnitude and phase, drawn by the caller), then
/// conjugate symmetry is imposed.
pub fn fft_randomize_bins<B: Copy, C: Fn(B) -> B, R: Fn(B) -> B>(
    bins: &mut Vec<B>,
    num_bins: usize,
    random: &Vec<B>,
    conj: &C,
    real_part: &R,
)
    requires
        random@.len() >= random_bins_needed(old(bins)@.len() as int, num_bins as int),
        bin_ops_total(conj, real_part),
    ensures
        symmetric_image(
            randomized_spectrum(
                old(bins)@,
                random@,
                random_bins_needed(old(bins)@.len() as int, num_bins as int),
            ),
            final(bins)@,
            conj,
            real_part,
        ),
{
    let ghost before = bins@;
    let count = random_bin_count(bins.len(), num_bins);
    let mut i: usize = 0;
    while i < count
        invariant
            bins@.len() == before.len(),
            count == random_bins_needed(before.len() as int, num_bins as int),
            count < bins@.len() || count == 0,
            random@.len() >= count,
            i <= count,
            bins@ == randomized_spectrum(before, random@, i as int),
        decreases count - i,
    {
        bins.set(i + 1, random[i]);
        i = i + 1;
    }
    enforce_conjugate_symmetry(bins, conj, real_part);
}

} // verus!

verus! {

/// After conjugate symmetry is imposed, each mirror bin `n - i` (for
/// `1 <= i <= (n - 1) / 2`) is the conjugate of bin `i`.
pub proof fn law_symmetric_mirrors<B, C: Fn(B) -> B, R: Fn(B) -> B>(
    before: Seq<B>,
    after: Seq<B>,
    conj: &C,
    real_part: &R,
)
    requires
        symmetric_image(before, after, conj, real_part),
    ensures
        forall|i: int|
            1 <= i <= (before.len() - 1) / 2 ==> call_ensures(
                *conj,
                (#[trigger] after[i],),
                after[before.len() - i],
            ),
{
    let n = before.len() as int;
    assert forall|i: int| 1 <= i <= (n - 1) / 2 implies call_ensures(
        *conj,
        (#[trigger] after[i],),
        after[n - i],
    ) by {
        assert(after[i] == before[i]);
        assert(n - (n - i) == i);
        assert(call_ensures(*conj, (before[n - (n - i)],), after[n - i]));
    }
}

/// Keeping only the even harmonics and then only the odd ones (or the other way
/// round) leaves every harmonic `1 <= k < n/2` at zero.
pub proof fn law_even_and_odd_clear_all_harmonics<B, C: Fn(B) -> B, R: Fn(B) -> B>(
    start: Seq<B>,
    middle: Seq<B>,
    end: Seq<B>,
    odd_first: bool,
    zero: B,
    conj: &C,
    real_part: &R,
)
    requires
        symmetric_image(zero_parity(start, odd_first, zero), middle, conj, real_part),
        symmetric_image(zero_parity(middle, !odd_first, zero), end, conj, real_part),
    ensures
        end.len() == start.len(),
        forall|k: int| 1 <= k < start.len() / 2 ==> #[trigger] end[k] == zero,
{
    let n = start.len() as int;
    assert forall|k: int| 1 <= k < n / 2 implies #[trigger] end[k] == zero by {
        assert(end[k] == zero_parity(middle, !odd_first, zero)[k]);
        assert(middle[k] == zero_parity(start, odd_first, zero)[k]);
    }
}

/// Clearing the high frequencies from `start_bin` on keeps the DC bin's real part
/// and every harmonic below `start_bin` as it was.
pub proof fn law_clear_hf_keeps_low_bins<B, C: Fn(B) -> B, R: Fn(B) -> B>(
    before: Seq<B>,
    after: Seq<B>,
    start_bin: int,
    zero: B,
    conj: &C,
    real_part: &R,
)
    requires
        0 <= start_bin < before.len() / 2,
        symmetric_image(zero_range(before, start_bin, before.len() as int / 2, zero), after, conj, real_part),
    ensures
        forall|k: int| 1 <= k < start_bin ==> #[trigger] after[k] == before[k],
        forall|k: int| start_bin <= k < before.len() / 2 && k > 0 ==> #[trigger] after[k] == zero,
{
}

} // verus!

verus! {

/// The neighbourhood `start..=end` over which spectral smear averages the
/// magnitude of bin `i` (for `1 <= i < half`): `smear_bins` bins on each side,
/// kept within `1..=half - 1`.
pub fn smear_window(i: usize, smear_bins: usize, half: usize) -> (window: (usize, usize))
    requires
        1 <= i < half,
        i + smear_bins <= usize::MAX,
    ensures
        window.0 == if i - smear_bins > 1 { i - smear_bins } else { 1 },
        window.1 == if i + smear_bins < half - 1 { i + smear_bins } else { half - 1 },
        1 <= window.0 <= i <= window.1 < half,
{
    let low = if i > smear_bins { i - smear_bins } else { 0 };
    let start = if low > 1 { low } else { 1 };
    let high = i + smear_bins;
    let end = if high < half - 1 { high } else { half - 1 };
    (start, end)
}

/// The bins after a formant shift by `shift`: each bin `1 <= i < half` moves to
/// `i + shift` when that lands in `1..half`; every other place is `empty`.
pub open spec fn shifted_bins<T>(bins: Seq<T>, half: int, shift: int, empty: T) -> Seq<T> {
    Seq::new(
        bins.len(),
        |t: int| if 0 < t < half && 1 <= t - shift < half { bins[t - shift] } else { empty },
    )
}

/// Moves each bin `1 <= i < half` to `i + shift` when that is still in `1..half`
/// (the formant shift of the spectral effects); all other bins become `empty`.
pub fn formant_shift<T: Copy>(bins: &Vec<T>, half: usize, shift: isize, empty: T) -> (shifted: Vec<T>)
    requires
        half <= bins@.len(),
        half <= isize::MAX,
        half == 0 || half as int - 1 + shift as int <= isize::MAX,
    ensures
        shifted@ == shifted_bins(bins@, half as int, shift as int, empty),
{
    let len = bins.len();
    let mut shifted: Vec<T> = Vec::with_capacity(len);
    let mut k: usize = 0;
    while k < len
        invariant
            len == bins@.len(),
            k <= len,
            shifted@.len() == k,
            forall|t: int| 0 <= t < k ==> #[trigger] shifted@[t] == empty,
        decreases len - k,
    {
        shifted.push(empty);
        k = k + 1;
    }
    let ghost target = shifted_bins(bins@, half as int, shift as int, empty);
    let mut i: usize = 1;
    while i < half
        invariant
            len == bins@.len() == shifted@.len(),
            half <= len,
            half <= isize::MAX,
            half == 0 || half as int - 1 + shift as int <= isize::MAX,
            1 <= i <= half || half == 0,
            target == shifted_bins(bins@, half as int, shift as int, empty),
            forall|t: int|
                0 <= t < len ==> #[trigger] shifted@[t] == if 0 < t < half && 1 <= t - shift < i {
                    bins@[t - shift]
                } else {
                    empty
                },
        decreases half - i,
    {
        let to = i as isize + shift;
        if to > 0 && to < half as isize {
            shifted.set(to as usize, bins[i]);
        }
        i = i + 1;
    }
    assert(shifted@ == target);
    shifted
}

} // verus!

verus! {

/// The operations of the harmonics view's context menu.
#[derive(Debug, Clone, Copy, PartialEq, Eq, Structural)]
pub enum FftOperation {
    ClearAll,
    /// Clear from bin 11 to the end.
    ClearHf,
    /// Clear from the start to bin 11.
    ClearLf,
    GenerateSaw,
    RandomizeLow16,
    RandomizeLow32,
    RandomizeAll,
    EvenOnly,
    OddOnly,
}

/// The first bin that "Clear HF" clears and the last that "Clear LF" clears.
pub const MENU_CUTOFF_BIN: usize = 11;

impl FftOperation {
    /// How many low bins the operation draws anew in a spectrum of `len` bins
    /// (only the randomizers draw any).
    pub open spec fn spec_randomized_bins(self, len: int) -> int {
        match self {
            FftOperation::RandomizeLow16 => 16,
            FftOperation::RandomizeLow32 => 32,
            FftOperation::RandomizeAll => len / 2,
            _ => 0,
        }
    }

    /// How many random bins `apply` takes for a spectrum of `len` bins (0 for the
    /// operations that draw none).
    pub fn random_bins_for(self, len: usize) -> (count: usize)
        ensures
            count == random_bins_needed(len as int, self.spec_randomized_bins(len as int)),
            !(self == FftOperation::RandomizeLow16 || self == FftOperation::RandomizeLow32
                || self == FftOperation::RandomizeAll) ==> count == 0,
    {
        match self {
            FftOperation::RandomizeLow16 => random_bin_count(len, 16),
            FftOperation::RandomizeLow32 => random_bin_count(len, 32),
            FftOperation::RandomizeAll => random_bin_count(len, len / 2),
            _ => 0,
        }
    }

    /// Runs the menu operation on `bins`: the fixed cut-off bin 11 for the clear
    /// operations, 16, 32 or all `n/2` low bins for the randomizers (with the
    /// caller's `random` bins), `saw_harmonic` for the sawtooth.
    pub fn apply<B: Copy, G: Fn(usize) -> B, C: Fn(B) -> B, R: Fn(B) -> B>(
        self,
        bins: &mut Vec<B>,
        random: &Vec<B>,
        saw_harmonic: &G,
        zero: B,
        conj: &C,
        real_part: &R,
    )
        requires
            bin_ops_total(conj, real_part),
            forall|k: usize| call_requires(*saw_harmonic, (k,)),
            self == FftOperation::GenerateSaw ==> old(bins)@.len() > 0,
            random@.len() >= random_bins_needed(
                old(bins)@.len() as int,
                self.spec_randomized_bins(old(bins)@.len() as int),
            ),
        ensures
            self == FftOperation::ClearAll ==> final(bins)@.len() == old(bins)@.len() && forall|k: int|
                0 <= k < final(bins)@.len() ==> #[trigger] final(bins)@[k] == zero,
            self == FftOperation::ClearHf ==> {
                &&& MENU_CUTOFF_BIN >= old(bins)@.len() / 2 ==> final(bins)@ == old(bins)@
                &&& MENU_CUTOFF_BIN < old(bins)@.len() / 2 ==> symmetric_image(
                    zero_range(old(bins)@, MENU_CUTOFF_BIN as int, old(bins)@.len() as int / 2, zero),
                    final(bins)@,
                    conj,
                    real_part,
                )
            },
            self == FftOperation::ClearLf ==> symmetric_image(
                zero_range(
                    old(bins)@,
                    1,
                    clear_lf_end(old(bins)@.len() as int, MENU_CUTOFF_BIN as int) + 1,
                    zero,
                ),
                final(bins)@,
                conj,
                real_part,
            ),
            self == FftOperation::GenerateSaw ==> {
                &&& forall|k: int|
                    1 <= k < old(bins)@.len() / 2 ==> call_ensures(
                        *saw_harmonic,
                        (k as usize,),
                        #[trigger] final(bins)@[k],
                    )
                &&& symmetric_image(saw_spectrum(old(bins)@, final(bins)@, zero), final(bins)@, conj, real_part)
            },
            (self == FftOperation::RandomizeLow16 || self == FftOperation::RandomizeLow32
                || self == FftOperation::RandomizeAll) ==> symmetric_image(
                randomized_spectrum(
                    old(bins)@,
                    random@,
                    random_bins_needed(
                        old(bins)@.len() as int,
                        self.spec_randomized_bins(old(bins)@.len() as int),
                    ),
                ),
                final(bins)@,
                conj,
                real_part,
            ),
            self == FftOperation::EvenOnly ==> symmetric_image(
                zero_parity(old(bins)@, true, zero),
                final(bins)@,
                conj,
                real_part,
            ),
            self == FftOperation::OddOnly ==> symmetric_image(
                zero_parity(old(bins)@, false, zero),
                final(bins)@,
                conj,
                real_part,
            ),
    {
        match self {
            FftOperation::ClearAll => fft_clear_all(bins, zero),
            FftOperation::ClearHf => fft_clear_hf(bins, MENU_CUTOFF_BIN, zero, conj, real_part),
            FftOperation::ClearLf => fft_clear_lf(bins, MENU_CUTOFF_BIN, zero, conj, real_part),
            FftOperation::GenerateSaw => fft_generate_saw(bins, saw_harmonic, zero, conj, real_part),
            FftOperation::RandomizeLow16 => fft_randomize_bins(bins, 16, random, conj, real_part),
            FftOperation::RandomizeLow32 => fft_randomize_bins(bins, 32, random, conj, real_part),
            FftOperation::RandomizeAll => {
                let len = bins.len();
                fft_randomize_bins(bins, len / 2, random, conj, real_part)
            },
            FftOperation::EvenOnly => fft_draw_even_only(bins, zero, conj, real_part),
            FftOperation::OddOnly => fft_draw_odd_only(bins, zero, conj, real_part),
        }
    }
}

} // verus!

verus! {

/// Keeping only the harmonics of one parity leaves every harmonic of the other
/// parity (`1 <= k < n/2`) as it was and sets the ones of the chosen parity to zero.
pub proof fn law_parity_filter<B, C: Fn(B) -> B, R: Fn(B) -> B>(
    before: Seq<B>,
    after: Seq<B>,
    odd: bool,
    zero: B,
    conj: &C,
    real_part: &R,
)
    requires
        symmetric_image(zero_parity(before, odd, zero), after, conj, real_part),
    ensures
        after.len() == before.len(),
        forall|k: int|
            1 <= k < before.len() / 2 && (k % 2 == 1) != odd ==> #[trigger] after[k] == before[k],
        forall|k: int| 1 <= k < before.len() / 2 && (k % 2 == 1) == odd ==> #[trigger] after[k] == zero,
{
    let n = before.len() as int;
    assert forall|k: int| 1 <= k < n / 2 implies #[trigger] after[k] == zero_parity(before, odd, zero)[k] by {
    }
}

} // verus!

verus! {

/// Imposing symmetry keeps the lower half of the spectrum: the DC bin becomes
/// its own real part, bins `1 <= k <= (n - 1) / 2` stay as they were, and for
/// even `n` the Nyquist bin becomes its own real part.
pub proof fn law_symmetry_keeps_low_half<B, C: Fn(B) -> B, R: Fn(B) -> B>(
    before: Seq<B>,
    after: Seq<B>,
    conj: &C,
    real_part: &R,
)
    requires
        symmetric_image(before, after, conj, real_part),
    ensures
        after.len() == before.len(),
        before.len() >= 1 ==> call_ensures(*real_part, (before[0],), after[0]),
        forall|k: int| 1 <= k <= (before.len() - 1) / 2 ==> #[trigger] after[k] == before[k],
        before.len() >= 2 && before.len() % 2 == 0 ==> call_ensures(
            *real_part,
            (before[before.len() as int / 2],),
            after[before.len() as int / 2],
        ),
{
    let n = before.len() as int;
    if n >= 1 {
        assert(call_ensures(*real_part, (before[0],), after[0]));
    }
    if n >= 2 && n % 2 == 0 {
        assert(call_ensures(*real_part, (before[n / 2],), after[n / 2]));
    }
}

/// Clearing the low frequencies through `end_bin` zeroes every harmonic
/// `1 <= k <= end_bin` of the lower half and keeps the ones above it.
pub proof fn law_clear_lf<B, C: Fn(B) -> B, R: Fn(B) -> B>(
    before: Seq<B>,
    after: Seq<B>,
    end_bin: int,
    zero: B,
    conj: &C,
    real_part: &R,
)
    requires
        end_bin >= 0,
        symmetric_image(
            zero_range(before, 1, clear_lf_end(before.len() as int, end_bin) + 1, zero),
            after,
            conj,
            real_part,
        ),
    ensures
        forall|k: int| 1 <= k <= (before.len() - 1) / 2 && k <= end_bin ==> #[trigger] after[k] == zero,
        forall|k: int|
            1 <= k <= (before.len() - 1) / 2 && k > end_bin ==> #[trigger] after[k] == before[k],
{
    let n = before.len() as int;
    let mid = zero_range(before, 1, clear_lf_end(n, end_bin) + 1, zero);
    assert forall|k: int| 1 <= k <= (n - 1) / 2 implies #[trigger] after[k] == mid[k] by {}
}

/// Randomizing the `num_bins` low bins puts the drawn bins, in order, at
/// harmonics `1 <= k < num_bins` of the lower half and keeps the others.
pub proof fn law_randomize<B, C: Fn(B) -> B, R: Fn(B) -> B>(
    before: Seq<B>,
    after: Seq<B>,
    num_bins: int,
    random: Seq<B>,
    conj: &C,
    real_part: &R,
)
    requires
        num_bins >= 0,
        random.len() >= random_bins_needed(before.len() as int, num_bins),
        symmetric_image(
            randomized_spectrum(before, random, random_bins_needed(before.len() as int, num_bins)),
            after,
            conj,
            real_part,
        ),
    ensures
        forall|k: int| 1 <= k < before.len() / 2 && k < num_bins ==> #[trigger] after[k] == random[k - 1],
        forall|k: int|
            1 <= k < before.len() / 2 && k >= num_bins ==> #[trigger] after[k] == before[k],
{
    let n = before.len() as int;
    let mid = randomized_spectrum(before, random, random_bins_needed(n, num_bins));
    assert forall|k: int| 1 <= k < n / 2 implies #[trigger] after[k] == mid[k] by {}
}

/// The sawtooth has no DC: bin 0 is the real part of `zero`.
pub proof fn law_saw_has_no_dc<B, C: Fn(B) -> B, R: Fn(B) -> B>(
    before: Seq<B>,
    after: Seq<B>,
    zero: B,
    conj: &C,
    real_part: &R,
)
    requires
        before.len() >= 1,
        symmetric_image(saw_spectrum(before, after, zero), after, conj, real_part),
    ensures
        call_ensures(*real_part, (zero,), after[0]),
{
    assert(saw_spectrum(before, after, zero)[0] == zero);
}

/// A formant shift moves bin `i` (for `1 <= i < half`) to `i + shift` when that
/// is in `1..half`; a place that no bin moves to holds `empty`.
pub proof fn law_formant_shift_moves<T>(bins: Seq<T>, half: int, shift: int, empty: T)
    requires
        0 <= half <= bins.len(),
    ensures
        shifted_bins(bins, half, shift, empty).len() == bins.len(),
        forall|i: int|
            1 <= i < half && 1 <= i + shift < half ==> #[trigger] shifted_bins(bins, half, shift, empty)[i
                + shift] == bins[i],
        forall|t: int|
            0 <= t < bins.len() && !(0 < t < half && 1 <= t - shift < half)
                ==> #[trigger] shifted_bins(bins, half, shift, empty)[t] == empty,
{
}

} // verus!
