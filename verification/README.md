# audiolyzer

A terminal audio spectrum analyser. It records from an input device, windows and
transforms each block of samples, smooths the spectrum and draws it in the terminal.

- `src/` is the verified library (Verus): window selection (`fft`), the mapping of
  spectrum entries to display bands and the engine's sample bookkeeping (`fft`), the
  display plans of the three drawing strategies (`display`), keys and input events
  (`inputs`), the reaction of the main loop to each event and the frame-rate ring
  (`control`), input-device selection and stream settings (`audio_thread`), and the
  screen layout (`ui`, which calls ratatui's layout solver).
- `app/` is the program around it: command-line arguments, the audio stream, the
  floating-point signal processing (windowing, transform, smoothing, decibels), the
  terminal and the drawing of the planned marks.
- `tests/` exercises the library on concrete values.
