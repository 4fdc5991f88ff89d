# wavetable_designer

The verified library behind the TableStudio Wavetable Designer, a multi-frame
wavetable editor and synthesizer plugin.

- `src/` is checked by Verus. It holds everything of the editor that is not
  floating-point arithmetic, generic over the sample type:
  - `app_state`: the frame table (`WtState`, `WavetableFrame`), the active-frame
    rules, multi-frame WAV import and "export all", the default editor state,
    and the preview modes;
  - `spectrum`: editing of FFT bins (conjugate symmetry, clearing high or low
    bins, even/odd harmonics, sawtooth, randomized low bins, the harmonics-view
    menu operations) and the index bookkeeping of the spectral effects;
  - `voice`: the monophonic, last-note-wins MIDI preview voice and the table
    positions read by the oscillator;
  - `notes`: note names and octaves of the note picker;
  - `grid`: which frame each cell of the frame grid shows;
  - `wav`: keeping the first channel of a decoded WAV file.
- `app/` is the NIH-plug plugin and its egui editor: audio processing, the
  floating-point DSP (baking, FM, FFT via rustfft), WAV I/O via hound and file
  dialogs via rfd.
- `tests/` exercise the library on concrete values.

