# rpbc

A controller that lets a handheld console drive a computer through sound. The console
plays one tone per input on each of two stereo channels; the program detects the tone
on each channel and turns it into key presses (for the buttons) or mouse moves and
clicks (for the touch screen). A calibration run records the tone of every input and
the screen area that the touch screen maps to.

- `src/` is the verified library (Verus): flags, the input layout, the tone zones and
  the button search, the touch-screen mapping, the controller and calibration state
  machines, and the calibration files (JSON, through the `json` crate).
- `app/` is the program around it: the audio stream (`cpal`), pitch detection on the
  samples (`pitch-detector`), the terminal (`console`), the mouse position
  (`mouse_position`), simulated input events (`rdev`) and file access.
- `tests/` runs the library on concrete inputs.

Tones are handled in millihertz (`i64`); the program converts the detected frequencies
at the edge.

Run with `-c` to calibrate (`-sp` skips the tones and asks only for the screen
corners), `-a` to hide the list of input devices, `-hz` to show the detected
frequencies and `-x` to send no input events.
