# venya

The verified core of the Venya voice assistant, written in Verus.

- `src/` is the library. Every function in it is proved against its
  `requires`/`ensures` contract: the text normalisation that prepares text
  for speech synthesis (apostrophes, abbreviations, contractions, numbers,
  symbols), the speaker catalogue and speech requests, the reading of
  whisper transcripts, the command lines of the Python helpers, and the
  decision logic of the user-interface components (date picker, select and
  radio lists, text fields, badges, avatars, icons, image loader, text).
  Calls into outside crates (`regex`, `chrono`, `base64`) and into parts of
  std that Verus does not specify go through small trusted wrappers whose
  contracts are documented next to them.
- `tests/` runs the library on concrete values.
- `app/` is the desktop application around the library: the Dioxus
  components, audio recording and playback, the speech engine, the database
  and the processes it starts.
