# openflow

The verified core of a push-to-talk dictation utility: a global shortcut
starts and stops a microphone recording, the recording is transcribed by a
local speech recogniser, and the cleaned-up text is pasted into the focused
application.

- `src/` is the library, verified with Verus:
  - `text` — deleting phrases, folding runs of spaces and trimming
    whitespace, over `Seq<char>`;
  - `transcriber` — the recognition session, its error messages, the
    clean-up of transcripts and the choice of model file;
  - `audio` — the microphone worker's decisions: which blocks of sound are
    kept, and what a stop hands back;
  - `hotkey` — what each shortcut press, worker answer and transcription
    outcome leads to, as ordered lists of actions;
  - `injector` — what is pasted for a transcript.
- `app/` is the desktop application around it (window, shortcut, audio
  stream, recogniser, clipboard), in ordinary Rust.
- `tests/` exercises the library.
