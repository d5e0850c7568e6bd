# palabot

The logic of Palabot, a Telegram bot for a group chat, as a verified
library, with a thin program around it.

- `src/` — the library, verified with Verus:
  - `text` — Unicode whitespace, trimming, splitting into words, decimal
    numerals and `i32` parsing over character sequences;
  - `birthdays` — the birthday database: `/cumpleanios` answers and the
    daily greetings;
  - `search` — the Google search request and the messages made from its
    answer;
  - `answer` — each command as a state machine (`answer`), with the
    monthly search quota, and laws on termination, on when a member may be
    muted and on the number of searches per month;
  - `transcribe` — transcription of a replied-to voice note as a state
    machine (`handle_voice_message`), with the transcript's joining rules;
  - `scheduler` — the daily birthday run.
- `app/` — the bot program: Telegram, SerpApi, files, the clock, ffmpeg and
  Whisper, driving the library's state machines.
- `tests/` — tests of the library on concrete values.

`Cargo.toml` names `takecell`, which the bot does not use itself: teloxide
depends on it, and its newest release needs a newer compiler than the one
used here, so an older release is pinned.
