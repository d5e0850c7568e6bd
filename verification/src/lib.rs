//! Command handling, birthday lookup and voice-note transcription logic of
//! the Palabot Telegram bot, with the Telegram, search and speech-to-text
//! services left to the caller.

pub mod text;
pub mod birthdays;
pub mod search;
pub mod answer;
pub mod transcribe;
pub mod scheduler;
