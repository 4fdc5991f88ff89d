use vstd::prelude::*;

verus! {

/// Why a WAV file could not be used.
#[derive(Debug, Clone, Copy, PartialEq, Eq, Structural)]
pub enum WavError {
    /// The file decoded to no samples at all.
    NoSamples,
}

impl WavError {
    /// The message shown in the editor's status line.
    pub fn message(self) -> (text: &'static str)
        ensures
            text@ == "WAV contains no samples"@,
    {
        match self {
            WavError::NoSamples => "WAV contains no samples",
        }
    }
}

/// The channel count a stream is read with: the file's, but at least 1.
pub open spec fn effective_channels(channels: int) -> int {
    if channels < 1 { 1 } else { channels }
}

/// The first channel of interleaved samples: the first sample of every frame of
/// `channels` samples, the last frame possibly incomplete.
pub open spec fn first_channel_of<S>(interleaved: Seq<S>, channels: int) -> Seq<S> {
    Seq::new(
        ((interleaved.len() + channels - 1) / channels) as nat,
        |k: int| interleaved[k * channels],
    )
}

/// Keeps the first channel of the interleaved samples of a WAV file (a channel
/// count of 0 counts as 1); a file without samples is refused.
pub fn first_channel<S: Copy>(interleaved: &Vec<S>, channels: u16) -> (mono: Result<Vec<S>, WavError>)
    ensures
        interleaved@.len() == 0 <==> mono is Err,
        mono matches Err(e) ==> e == WavError::NoSamples,
        mono matches Ok(m) ==> m@ == first_channel_of(
            interleaved@,
            effective_channels(channels as int),
        ),
{
    if interleaved.len() == 0 {
        return Err(WavError::NoSamples);
    }
    let step: usize = if channels < 1 { 1 } else { channels as usize };
    let len = interleaved.len();
    let ghost target = first_channel_of(interleaved@, step as int);
    let mut mono: Vec<S> = Vec::new();
    let mut pos: usize = 0;
    let ghost mut k: int = 0;
    loop
        invariant_except_break
            pos < len,
            pos == k * step,
        invariant
            len == interleaved@.len(),
            step >= 1,
            step == effective_channels(channels as int),
            target == first_channel_of(interleaved@, step as int),
            0 <= k,
            mono@ == target.take(k),
        ensures
            mono@ == target,
        decreases len - pos,
    {
        proof {
            lemma_ceil_bounds(k, step as int, len as int);
        }
        mono.push(interleaved[pos]);
        assert(mono@ == target.take(k + 1));
        proof {
            assert(k * step + step == (k + 1) * step) by (nonlinear_arith);
            k = k + 1;
        }
        if len - pos <= step {
            assert(target.take(k) == target);
            break;
        }
        pos = pos + step;
    }
    Ok(mono)
}

/// For `k * step < len`: `k` is below the number of `step`-sized frames in `len`
/// samples, and it is the last one exactly when the next frame would start past the end.
proof fn lemma_ceil_bounds(k: int, step: int, len: int)
    requires
        0 <= k,
        step >= 1,
        k * step < len,
    ensures
        k < (len + step - 1) / step,
        len <= k * step + step ==> (len + step - 1) / step == k + 1,
{
    assert(k < (len + step - 1) / step) by (nonlinear_arith)
        requires
            0 <= k,
            step >= 1,
            k * step < len,
    ;
    if len <= k * step + step {
        assert((len + step - 1) / step == k + 1) by (nonlinear_arith)
            requires
                0 <= k,
                step >= 1,
                k * step < len,
                len <= k * step + step,
        ;
    }
}

} // verus!

verus! {

/// The first channel holds one sample per (possibly incomplete) frame of
/// `channels` samples, and its `k`-th sample is the first of frame `k`.
pub proof fn law_first_channel<S>(interleaved: Seq<S>, channels: int)
    requires
        channels >= 1,
    ensures
        first_channel_of(interleaved, channels).len() * channels >= interleaved.len(),
        first_channel_of(interleaved, channels).len() == 0 || (first_channel_of(
            interleaved,
            channels,
        ).len() - 1) * channels < interleaved.len(),
        forall|k: int|
            0 <= k < first_channel_of(interleaved, channels).len() ==> #[trigger] first_channel_of(
                interleaved,
                channels,
            )[k] == interleaved[k * channels],
{
    let len = interleaved.len() as int;
    let m = (len + channels - 1) / channels;
    assert(m * channels >= len && (m == 0 || (m - 1) * channels < len) && m >= 0) by (nonlinear_arith)
        requires
            channels >= 1,
            len >= 0,
            m == (len + channels - 1) / channels,
    ;
}

} // verus!
