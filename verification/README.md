# Diktovani

A menu-bar app that records what the user says, has a speech model write it down, and pastes the
text where the user types.

- `src/` is the library: every rule of the app, with contracts that Verus proves. It decides and
  computes; it does no input or output.
- `app/` is the program around it: the microphone, the model, the clipboard, the menu bar, files
  and threads, and whatever needs floating-point numbers.
- `tests/` runs the library on examples.

Where the app alternates work outside with decisions, the library holds the decisions as steps: it
says what to do next, and takes in what came of it. `ui` reacts to events with effects,
`recorder`, `model`, `transcribe`, `worker`, `paste` and `launch` each walk through one task. What
always holds of them stands beside them as proof functions, such as that a cancelled transcription is
never pasted, that an unfinished download never becomes the model's file, or that a paste that
runs to its end has released every key that it pressed.
