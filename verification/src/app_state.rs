use vstd::prelude::*;

verus! {

/// Which source, if any, drives the audio preview.
#[derive(Debug, Clone, Copy, PartialEq, Eq, Structural)]
pub enum PreviewMode {
    /// No audio output; the oscillator phase is held at zero.
    Off,
    /// The chosen note sounds while the canvas is being dragged.
    EditDrone,
    /// Monophonic MIDI input, last note wins.
    Midi,
}

/// The text shown for each preview mode in the mode selector.
pub open spec fn preview_mode_label(mode: PreviewMode) -> Seq<char> {
    match mode {
        PreviewMode::Off => "Off"@,
        PreviewMode::EditDrone => "Edit-Drone"@,
        PreviewMode::Midi => "MIDI"@,
    }
}

impl PreviewMode {
    /// The label of this mode in the mode selector.
    pub fn label(self) -> (text: &'static str)
        ensures
            text@ == preview_mode_label(self),
    {
        match self {
            PreviewMode::Off => "Off",
            PreviewMode::EditDrone => "Edit-Drone",
            PreviewMode::Midi => "MIDI",
        }
    }
}

} // verus!

verus! {

/// Number of samples in one wavetable frame (one full cycle).
pub const WT_SIZE: usize = 2048;

/// Rows of the default frame grid.
pub const DEFAULT_GRID_ROWS: usize = 8;

/// Columns of the default frame grid.
pub const DEFAULT_GRID_COLS: usize = 8;

/// Copies a sample buffer element by element.
pub fn copy_samples<S: Copy>(samples: &Vec<S>) -> (out: Vec<S>)
    ensures
        out@ == samples@,
{
    let mut out: Vec<S> = Vec::with_capacity(samples.len());
    let n = samples.len();
    for i in 0..n
        invariant
            n == samples@.len(),
            out@ == samples@.take(i as int),
    {
        out.push(samples[i]);
        assert(samples@.take(i + 1) == samples@.take(i as int).push(samples@[i as int]));
    }
    assert(samples@.take(n as int) == samples@);
    out
}

/// One frame of the wavetable: the hand-edited waveform and its baked render.
/// `S` is the sample type (the plugin uses 32-bit floats).
pub struct WavetableFrame<S> {
    pub raw: Vec<S>,
    pub baked: Vec<S>,
    pub is_keyframe: bool,
}

impl<S: Copy> WavetableFrame<S> {
    /// A frame whose raw and baked waveforms are both `samples`; not a keyframe.
    pub fn from_samples(samples: Vec<S>) -> (frame: Self)
        ensures
            frame.raw@ == samples@,
            frame.baked@ == samples@,
            !frame.is_keyframe,
    {
        let baked = copy_samples(&samples);
        WavetableFrame { raw: samples, baked, is_keyframe: false }
    }

    /// An independent copy of this frame.
    pub fn duplicate(&self) -> (copy: Self)
        ensures
            copy.raw@ == self.raw@,
            copy.baked@ == self.baked@,
            copy.is_keyframe == self.is_keyframe,
    {
        WavetableFrame {
            raw: copy_samples(&self.raw),
            baked: copy_samples(&self.baked),
            is_keyframe: self.is_keyframe,
        }
    }
}

} // verus!

verus! {

/// The whole editor state shared by the editor and the audio thread.
/// `S` is the sample and parameter type (the plugin uses 32-bit floats).
pub struct WtState<S> {
    pub frames: Vec<WavetableFrame<S>>,
    pub active_frame: usize,
    pub grid_rows: usize,
    pub grid_cols: usize,
    // FM engine
    pub fm_ratio: S,
    pub fm_amount: S,
    /// 0 = sine, 1 = saw, 2 = square modulator.
    pub mod_shape: usize,
    // BassForge / effects
    pub fundamental_boost: S,
    pub wavefold_amount: S,
    // Spectral controls
    pub spectral_morph_amount: S,
    pub spectral_formant: S,
    pub spectral_smear: S,
    pub spectral_stretch: S,
    pub spectral_warp: S,
    // Preview
    pub preview_mode: PreviewMode,
    pub preview_note: u8,
    pub preview_detune_cents: S,
    pub edit_gate: bool,
}

/// The index of the frame that is edited: the stored index, clamped to the last frame.
pub open spec fn clamped_index(active: int, count: int) -> int {
    if active < count - 1 { active } else { count - 1 }
}

impl<S> WtState<S> {
    /// The index that `active_frame` and `active_frame_mut` resolve to.
    pub open spec fn active_index(&self) -> int {
        clamped_index(self.active_frame as int, self.frames@.len() as int)
    }

    /// Everything but the frames and the active index is the same in both states.
    pub open spec fn same_settings(&self, other: &Self) -> bool {
        &&& self.grid_rows == other.grid_rows
        &&& self.grid_cols == other.grid_cols
        &&& self.fm_ratio == other.fm_ratio
        &&& self.fm_amount == other.fm_amount
        &&& self.mod_shape == other.mod_shape
        &&& self.fundamental_boost == other.fundamental_boost
        &&& self.wavefold_amount == other.wavefold_amount
        &&& self.spectral_morph_amount == other.spectral_morph_amount
        &&& self.spectral_formant == other.spectral_formant
        &&& self.spectral_smear == other.spectral_smear
        &&& self.spectral_stretch == other.spectral_stretch
        &&& self.spectral_warp == other.spectral_warp
        &&& self.preview_mode == other.preview_mode
        &&& self.preview_note == other.preview_note
        &&& self.preview_detune_cents == other.preview_detune_cents
        &&& self.edit_gate == other.edit_gate
    }

    fn active_index_exec(&self) -> (index: usize)
        requires
            self.frames@.len() > 0,
        ensures
            index == self.active_index(),
            index < self.frames@.len(),
    {
        let last = self.frames.len() - 1;
        if self.active_frame < last { self.active_frame } else { last }
    }

    /// The frame being edited: the stored active index, clamped to the last frame.
    pub fn active_frame(&self) -> (frame: &WavetableFrame<S>)
        requires
            self.frames@.len() > 0,
        ensures
            0 <= self.active_index() < self.frames@.len(),
            *frame == self.frames@[self.active_index()],
    {
        let index = self.active_index_exec();
        &self.frames[index]
    }

    /// The frame being edited, for writing. The stored active index is first
    /// clamped to the last frame and written back.
    pub fn active_frame_mut(&mut self) -> (frame: &mut WavetableFrame<S>)
        requires
            old(self).frames@.len() > 0,
        ensures
            0 <= old(self).active_index() < old(self).frames@.len(),
            final(self).active_frame == old(self).active_index(),
            *frame == old(self).frames@[old(self).active_index()],
            final(self).frames@ == old(self).frames@.update(old(self).active_index(), *final(frame)),
            final(self).same_settings(&*old(self)),
    {
        let index = self.active_index_exec();
        self.active_frame = index;
        &mut self.frames[index]
    }
}

} // verus!

verus! {

/// Copies `samples[start..end]` into a new buffer.
pub fn copy_range<S: Copy>(samples: &Vec<S>, start: usize, end: usize) -> (out: Vec<S>)
    requires
        start <= end <= samples@.len(),
    ensures
        out@ == samples@.subrange(start as int, end as int),
{
    let mut out: Vec<S> = Vec::with_capacity(end - start);
    let mut i = start;
    while i < end
        invariant
            start <= i <= end <= samples@.len(),
            out@ == samples@.subrange(start as int, i as int),
        decreases end - i,
    {
        out.push(samples[i]);
        assert(samples@.subrange(start as int, i + 1) == samples@.subrange(start as int, i as int).push(samples@[i as int]));
        i = i + 1;
    }
    out
}

/// The `index`-th run of `WT_SIZE` samples in `samples`: the data of frame `index`
/// in a file holding consecutive frames.
pub open spec fn frame_chunk<S>(samples: Seq<S>, index: int) -> Seq<S> {
    samples.subrange(index * WT_SIZE, index * WT_SIZE + WT_SIZE)
}

/// How many frames an import of `sample_count` samples fills in a table of `frame_count` frames.
pub open spec fn frames_to_load(sample_count: int, frame_count: int) -> int {
    let whole = sample_count / (WT_SIZE as int);
    if whole < frame_count { whole } else { frame_count }
}

/// The baked waveforms of `frames`, one after another.
pub open spec fn baked_concat<S>(frames: Seq<WavetableFrame<S>>) -> Seq<S>
    decreases frames.len(),
{
    if frames.len() == 0 {
        Seq::empty()
    } else {
        baked_concat(frames.drop_last()) + frames.last().baked@
    }
}

/// `after` is `before` with its leading frames replaced, raw and baked, by the
/// consecutive `WT_SIZE`-sample chunks of `samples`, as many as both hold.
pub open spec fn frames_imported<S>(
    before: Seq<WavetableFrame<S>>,
    after: Seq<WavetableFrame<S>>,
    samples: Seq<S>,
) -> bool {
    let n = frames_to_load(samples.len() as int, before.len() as int);
    &&& after.len() == before.len()
    &&& forall|i: int|
        0 <= i < n ==> {
            &&& (#[trigger] after[i]).raw@ == frame_chunk(samples, i)
            &&& after[i].baked@ == frame_chunk(samples, i)
            &&& after[i].is_keyframe == before[i].is_keyframe
        }
    &&& forall|i: int| n <= i < after.len() ==> #[trigger] after[i] == before[i]
}

/// What a WAV import did to the table.
#[derive(Debug, Clone, Copy, PartialEq, Eq, Structural)]
pub enum ImportOutcome {
    /// The file held at least one whole frame; this many leading frames were replaced.
    Frames(usize),
    /// The file held less than one frame; nothing was changed and the samples
    /// are to be resampled into the active frame.
    Short,
}

impl<S: Copy> WtState<S> {
    /// Imports consecutive `WT_SIZE`-sample frames from `samples` into the leading
    /// frames of the table (raw and baked both), as many as the file and the table
    /// hold, and makes frame 0 active. A file shorter than one frame changes nothing.
    pub fn import_frames(&mut self, samples: &Vec<S>) -> (outcome: ImportOutcome)
        requires
            samples@.len() >= WT_SIZE ==> forall|i: int|
                0 <= i < frames_to_load(samples@.len() as int, old(self).frames@.len() as int)
                    ==> #[trigger] old(self).frames@[i].raw@.len() == WT_SIZE
                    && old(self).frames@[i].baked@.len() == WT_SIZE,
        ensures
            samples@.len() < WT_SIZE ==> outcome == ImportOutcome::Short && *final(self) == *old(self),
            samples@.len() >= WT_SIZE ==> outcome == ImportOutcome::Frames(
                frames_to_load(samples@.len() as int, old(self).frames@.len() as int) as usize,
            ),
            samples@.len() >= WT_SIZE ==> final(self).active_frame == 0,
            samples@.len() >= WT_SIZE ==> final(self).same_settings(&*old(self)),
            samples@.len() >= WT_SIZE ==> frames_imported(old(self).frames@, final(self).frames@, samples@),
    {
        if samples.len() < WT_SIZE {
            return ImportOutcome::Short;
        }
        let total = samples.len();
        let whole = total / WT_SIZE;
        let n = if whole < self.frames.len() { whole } else { self.frames.len() };
        let ghost old_frames = self.frames@;
        assert(whole * WT_SIZE <= samples@.len()) by (nonlinear_arith)
            requires
                whole as int == samples@.len() as int / (WT_SIZE as int),
        ;
        assert(n * WT_SIZE <= samples@.len()) by (nonlinear_arith)
            requires
                n <= whole,
                whole * WT_SIZE <= samples@.len(),
        ;
        let mut i: usize = 0;
        while i < n
            invariant
                i <= n,
                n == frames_to_load(samples@.len() as int, old_frames.len() as int),
                n * WT_SIZE <= samples@.len(),
                total == samples@.len(),
                self.frames@.len() == old_frames.len(),
                self.same_settings(&*old(self)),
                old_frames == old(self).frames@,
                forall|j: int| 0 <= j < i ==> {
                    &&& #[trigger] self.frames@[j].raw@ == frame_chunk(samples@, j)
                    &&& self.frames@[j].baked@ == frame_chunk(samples@, j)
                    &&& self.frames@[j].is_keyframe == old_frames[j].is_keyframe
                },
                forall|j: int| i <= j < self.frames@.len() ==> #[trigger] self.frames@[j] == old_frames[j],
            decreases n - i,
        {
            assert(i * WT_SIZE + WT_SIZE <= n * WT_SIZE) by (nonlinear_arith)
                requires
                    i < n,
            ;
            let size: usize = WT_SIZE;
            let start = i * size;
            let chunk = copy_range(samples, start, start + size);
            let chunk_copy = copy_samples(&chunk);
            self.frames[i].raw = chunk;
            self.frames[i].baked = chunk_copy;
            i = i + 1;
        }
        self.active_frame = 0;
        ImportOutcome::Frames(n)
    }

    /// Replaces the raw and baked waveform of the active frame with `samples`
    /// (the resampled contents of a file shorter than one frame).
    pub fn load_active_frame(&mut self, samples: &Vec<S>)
        requires
            old(self).frames@.len() > 0,
            old(self).frames@[old(self).active_index()].raw@.len() == samples@.len(),
            old(self).frames@[old(self).active_index()].baked@.len() == samples@.len(),
        ensures
            final(self).active_frame == old(self).active_index(),
            final(self).same_settings(&*old(self)),
            final(self).frames@.len() == old(self).frames@.len(),
            final(self).frames@[old(self).active_index()].raw@ == samples@,
            final(self).frames@[old(self).active_index()].baked@ == samples@,
            final(self).frames@[old(self).active_index()].is_keyframe
                == old(self).frames@[old(self).active_index()].is_keyframe,
            forall|i: int|
                0 <= i < final(self).frames@.len() && i != old(self).active_index()
                    ==> #[trigger] final(self).frames@[i] == old(self).frames@[i],
    {
        let raw = copy_samples(samples);
        let baked = copy_samples(samples);
        let frame = self.active_frame_mut();
        frame.raw = raw;
        frame.baked = baked;
    }

    /// The baked waveforms of all frames, one after another (what "Export All" writes).
    pub fn concat_baked(&self) -> (data: Vec<S>)
        ensures
            data@ == baked_concat(self.frames@),
    {
        let mut data: Vec<S> = Vec::new();
        let n = self.frames.len();
        for i in 0..n
            invariant
                n == self.frames@.len(),
                data@ == baked_concat(self.frames@.take(i as int)),
        {
            let frame = &self.frames[i];
            let m = frame.baked.len();
            let ghost before = data@;
            for j in 0..m
                invariant
                    m == frame.baked@.len(),
                    *frame == self.frames@[i as int],
                    data@ == before + frame.baked@.take(j as int),
            {
                data.push(frame.baked[j]);
                assert(frame.baked@.take(j + 1) == frame.baked@.take(j as int).push(frame.baked@[j as int]));
            }
            assert(frame.baked@.take(m as int) == frame.baked@);
            assert(self.frames@.take(i + 1).drop_last() == self.frames@.take(i as int));
        }
        assert(self.frames@.take(n as int) == self.frames@);
        data
    }

    /// "Bake into core": the active frame's raw waveform becomes a copy of its baked one.
    pub fn commit_active_baked(&mut self)
        requires
            old(self).frames@.len() > 0,
        ensures
            final(self).active_frame == old(self).active_index(),
            final(self).same_settings(&*old(self)),
            final(self).frames@.len() == old(self).frames@.len(),
            final(self).frames@[old(self).active_index()].raw@
                == old(self).frames@[old(self).active_index()].baked@,
            final(self).frames@[old(self).active_index()].baked
                == old(self).frames@[old(self).active_index()].baked,
            final(self).frames@[old(self).active_index()].is_keyframe
                == old(self).frames@[old(self).active_index()].is_keyframe,
            forall|i: int|
                0 <= i < final(self).frames@.len() && i != old(self).active_index()
                    ==> #[trigger] final(self).frames@[i] == old(self).frames@[i],
    {
        let frame = self.active_frame_mut();
        frame.raw = copy_samples(&frame.baked);
    }
}

} // verus!

verus! {

/// When every frame holds `WT_SIZE` baked samples, the concatenation holds
/// `WT_SIZE` samples per frame and its `i`-th chunk is frame `i`'s baked waveform.
proof fn lemma_baked_concat_chunks<S>(frames: Seq<WavetableFrame<S>>)
    requires
        forall|i: int| 0 <= i < frames.len() ==> (#[trigger] frames[i]).baked@.len() == WT_SIZE,
    ensures
        baked_concat(frames).len() == frames.len() * WT_SIZE,
        forall|i: int|
            0 <= i < frames.len() ==> frame_chunk(baked_concat(frames), i) == (#[trigger] frames[i]).baked@,
    decreases frames.len(),
{
    if frames.len() > 0 {
        let init = frames.drop_last();
        lemma_baked_concat_chunks(init);
        let whole = baked_concat(frames);
        let front = baked_concat(init);
        assert(whole == front + frames.last().baked@);
        assert forall|i: int| 0 <= i < frames.len() implies frame_chunk(whole, i) == (
        #[trigger] frames[i]).baked@ by {
            if i < frames.len() - 1 {
                assert(init[i] == frames[i]);
                assert(i * WT_SIZE + WT_SIZE <= front.len()) by (nonlinear_arith)
                    requires
                        i < frames.len() - 1,
                        front.len() == (frames.len() - 1) * WT_SIZE,
                ;
                assert(frame_chunk(whole, i) == frame_chunk(front, i));
            } else {
                assert(i * WT_SIZE == front.len()) by (nonlinear_arith)
                    requires
                        i == frames.len() - 1,
                        front.len() == (frames.len() - 1) * WT_SIZE,
                ;
                assert(frame_chunk(whole, i) == frames.last().baked@);
            }
        }
    }
}

/// Exporting all frames ("Export All") and importing that file into a table with
/// as many frames gives every frame back, as its raw and its baked waveform, the
/// baked waveform it was exported with; keyframe marks stay as they were.
pub proof fn law_export_import_roundtrip<S>(
    exported: Seq<WavetableFrame<S>>,
    target: Seq<WavetableFrame<S>>,
    imported: Seq<WavetableFrame<S>>,
)
    requires
        forall|i: int| 0 <= i < exported.len() ==> (#[trigger] exported[i]).baked@.len() == WT_SIZE,
        target.len() == exported.len(),
        frames_imported(target, imported, baked_concat(exported)),
    ensures
        imported.len() == exported.len(),
        forall|i: int|
            0 <= i < exported.len() ==> {
                &&& (#[trigger] imported[i]).raw@ == exported[i].baked@
                &&& imported[i].baked@ == exported[i].baked@
                &&& imported[i].is_keyframe == target[i].is_keyframe
            },
{
    lemma_baked_concat_chunks(exported);
    let n = exported.len() as int;
    assert((n * WT_SIZE) / (WT_SIZE as int) == n) by (nonlinear_arith)
        requires
            n >= 0,
    ;
    assert(frames_to_load(baked_concat(exported).len() as int, target.len() as int) == n);
    assert forall|i: int| 0 <= i < exported.len() implies {
        &&& (#[trigger] imported[i]).raw@ == exported[i].baked@
        &&& imported[i].baked@ == exported[i].baked@
        &&& imported[i].is_keyframe == target[i].is_keyframe
    } by {
        assert(frame_chunk(baked_concat(exported), i) == exported[i].baked@);
    }
}

} // verus!

verus! {

impl<S: Copy> WtState<S> {
    /// The state a new editor starts with: a `DEFAULT_GRID_ROWS` x `DEFAULT_GRID_COLS`
    /// grid of copies of `initial_frame`, the first of them marked as a keyframe and
    /// active; FM ratio `fm_ratio`; every other amount `zero`; modulator shape 0
    /// (sine); preview off on note 33 with the edit gate closed.
    pub fn with_defaults(initial_frame: &WavetableFrame<S>, fm_ratio: S, zero: S) -> (state: Self)
        ensures
            state.frames@.len() == DEFAULT_GRID_ROWS * DEFAULT_GRID_COLS,
            forall|i: int|
                0 <= i < state.frames@.len() ==> {
                    &&& (#[trigger] state.frames@[i]).raw@ == initial_frame.raw@
                    &&& state.frames@[i].baked@ == initial_frame.baked@
                    &&& state.frames@[i].is_keyframe == (i == 0 || initial_frame.is_keyframe)
                },
            state.active_frame == 0,
            state.grid_rows == DEFAULT_GRID_ROWS,
            state.grid_cols == DEFAULT_GRID_COLS,
            state.fm_ratio == fm_ratio,
            state.fm_amount == zero,
            state.mod_shape == 0,
            state.fundamental_boost == zero,
            state.wavefold_amount == zero,
            state.spectral_morph_amount == zero,
            state.spectral_formant == zero,
            state.spectral_smear == zero,
            state.spectral_stretch == zero,
            state.spectral_warp == zero,
            state.preview_mode == PreviewMode::Off,
            state.preview_note == 33,
            state.preview_detune_cents == zero,
            !state.edit_gate,
    {
        let frame_count = DEFAULT_GRID_ROWS * DEFAULT_GRID_COLS;
        let mut frames: Vec<WavetableFrame<S>> = Vec::with_capacity(frame_count);
        let mut k: usize = 0;
        while k < frame_count
            invariant
                k <= frame_count == DEFAULT_GRID_ROWS * DEFAULT_GRID_COLS,
                frames@.len() == k,
                forall|i: int|
                    0 <= i < k ==> {
                        &&& (#[trigger] frames@[i]).raw@ == initial_frame.raw@
                        &&& frames@[i].baked@ == initial_frame.baked@
                        &&& frames@[i].is_keyframe == initial_frame.is_keyframe
                    },
            decreases frame_count - k,
        {
            frames.push(initial_frame.duplicate());
            k = k + 1;
        }
        frames[0].is_keyframe = true;
        WtState {
            frames,
            active_frame: 0,
            grid_rows: DEFAULT_GRID_ROWS,
            grid_cols: DEFAULT_GRID_COLS,
            fm_ratio,
            fm_amount: zero,
            mod_shape: 0,
            fundamental_boost: zero,
            wavefold_amount: zero,
            spectral_morph_amount: zero,
            spectral_formant: zero,
            spectral_smear: zero,
            spectral_stretch: zero,
            spectral_warp: zero,
            preview_mode: PreviewMode::Off,
            preview_note: 33,
            preview_detune_cents: zero,
            edit_gate: false,
        }
    }
}

} // verus!

verus! {

/// What is written through `active_frame_mut` is what `active_frame` reads back:
/// after the write the stored index is the resolved one, so it resolves to the
/// same frame, which holds the written value.
pub proof fn law_active_frame_write_then_read<S>(before: WtState<S>, after: WtState<S>, written: WavetableFrame<S>)
    requires
        before.frames@.len() > 0,
        after.active_frame == before.active_index(),
        after.frames@ == before.frames@.update(before.active_index(), written),
    ensures
        after.active_index() == before.active_index(),
        0 <= after.active_index() < after.frames@.len(),
        after.frames@[after.active_index()] == written,
{
}

} // verus!

verus! {

/// An import fills as many frames as the file holds whole `WT_SIZE`-sample
/// frames, but no more than the table has: the count is within the table, its
/// frames fit in the file, and either the table is full or the file has no
/// further whole frame.
pub proof fn law_import_takes_every_whole_frame(sample_count: int, frame_count: int)
    requires
        sample_count >= 0,
        frame_count >= 0,
    ensures
        0 <= frames_to_load(sample_count, frame_count) <= frame_count,
        frames_to_load(sample_count, frame_count) * WT_SIZE <= sample_count,
        frames_to_load(sample_count, frame_count) == frame_count || sample_count < (
        frames_to_load(sample_count, frame_count) + 1) * WT_SIZE,
{
    let whole = sample_count / (WT_SIZE as int);
    assert(0 <= whole && whole * WT_SIZE <= sample_count && sample_count < (whole + 1) * WT_SIZE)
        by (nonlinear_arith)
        requires
            sample_count >= 0,
            whole == sample_count / (WT_SIZE as int),
    ;
    let n = frames_to_load(sample_count, frame_count);
    assert(n * WT_SIZE <= whole * WT_SIZE) by (nonlinear_arith)
        requires
            n <= whole,
    ;
}

/// A stored active index that names an existing frame resolves to that frame;
/// one past the end resolves to the last frame.
pub proof fn law_active_index_resolution<S>(state: WtState<S>)
    ensures
        state.active_frame < state.frames@.len() ==> state.active_index() == state.active_frame,
        state.frames@.len() > 0 && state.active_frame >= state.frames@.len() ==> state.active_index()
            == state.frames@.len() - 1,
{
}

} // verus!

verus! {

/// The mode selector shows "Off", "Edit-Drone" and "MIDI".
pub proof fn law_preview_mode_labels()
    ensures
        preview_mode_label(PreviewMode::Off) == "Off"@,
        preview_mode_label(PreviewMode::EditDrone) == "Edit-Drone"@,
        preview_mode_label(PreviewMode::Midi) == "MIDI"@,
{
}

/// "Export All" lays the frames out one after another: with full-size frames the
/// file holds `WT_SIZE` samples per frame, and sample `i * WT_SIZE + j` is sample
/// `j` of frame `i`'s baked waveform.
pub proof fn law_export_layout<S>(frames: Seq<WavetableFrame<S>>)
    requires
        forall|i: int| 0 <= i < frames.len() ==> (#[trigger] frames[i]).baked@.len() == WT_SIZE,
    ensures
        baked_concat(frames).len() == frames.len() * WT_SIZE,
        forall|i: int, j: int|
            0 <= i < frames.len() && 0 <= j < WT_SIZE ==> #[trigger] baked_concat(frames)[i * WT_SIZE
                + j] == (#[trigger] frames[i]).baked@[j],
{
    lemma_baked_concat_chunks(frames);
    assert forall|i: int, j: int|
        0 <= i < frames.len() && 0 <= j < WT_SIZE implies #[trigger] baked_concat(frames)[i * WT_SIZE
        + j] == (#[trigger] frames[i]).baked@[j] by {
        assert(frame_chunk(baked_concat(frames), i) == frames[i].baked@);
        assert(frame_chunk(baked_concat(frames), i)[j] == baked_concat(frames)[i * WT_SIZE + j]);
    }
}

/// An import puts sample `i * WT_SIZE + j` of the file at sample `j` of frame `i`,
/// raw and baked, for every frame it fills.
pub proof fn law_import_layout<S>(
    before: Seq<WavetableFrame<S>>,
    after: Seq<WavetableFrame<S>>,
    samples: Seq<S>,
)
    requires
        frames_imported(before, after, samples),
    ensures
        forall|i: int, j: int|
            0 <= i < frames_to_load(samples.len() as int, before.len() as int) && 0 <= j < WT_SIZE
                ==> {
                &&& (#[trigger] after[i]).raw@.len() == WT_SIZE
                &&& after[i].raw@[j] == #[trigger] samples[i * WT_SIZE + j]
                &&& after[i].baked@[j] == samples[i * WT_SIZE + j]
            },
{
    let n = frames_to_load(samples.len() as int, before.len() as int);
    law_import_takes_every_whole_frame(samples.len() as int, before.len() as int);
    assert forall|i: int, j: int| 0 <= i < n && 0 <= j < WT_SIZE implies {
        &&& (#[trigger] after[i]).raw@.len() == WT_SIZE
        &&& after[i].raw@[j] == #[trigger] samples[i * WT_SIZE + j]
        &&& after[i].baked@[j] == samples[i * WT_SIZE + j]
    } by {
        assert(i * WT_SIZE + WT_SIZE <= n * WT_SIZE) by (nonlinear_arith)
            requires
                i < n,
        ;
        assert(after[i].raw@ == frame_chunk(samples, i));
    }
}

} // verus!
