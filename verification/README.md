# autoshorts

Turns a long talk into short vertical clips: a language model proposes moments,
the clips are cut around the speaker with captions burned in, and a finished
clip can get scenes, a headline, sound effects and an end card before it is
published.

- `src/` is the library. It decides everything that can be decided from plain
  values: which moments to keep, which words a clip shows and when, how ffmpeg
  and the helper programs are called, what their output means, which provider is
  asked and what it is told. Every function states what it returns, and Verus
  proves it; where the disk or the machine decides, the function states what was
  asked of it and what follows from each answer.
- `tests/` runs the library on concrete values.
- `app/` does the rest: processes, files, network and the commands that the
  window calls.

Times are whole nanoseconds, and scores and fractions whole billionths. `app/`
converts from and to floating point.

A few functions of the standard library, `serde_json`, `dirs` and `uuid` are
called from `src/`. What is taken on trust of each is stated where it is called.
