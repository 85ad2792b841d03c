//! The decisions of a local voice assistant: recognising the wake word in what was
//! heard, leading the conversation that follows it, and the listening loop around
//! both.
//!
//! What is said of the functions here is proved. The sound, the speech recogniser,
//! the network and the terminal are left to the program around the library.
pub mod chat;
pub mod chat_laws;
pub mod clock;
pub mod commands;
pub mod dialog;
pub mod dialog_laws;
pub mod distance;
pub mod headers;
pub mod json;
pub mod listener;
pub mod listener_laws;
pub mod numbers;
pub mod phrase_laws;
pub mod phrases;
pub mod recognition;
pub mod recognition_laws;
pub mod settings;
pub mod settings_laws;
pub mod sound_laws;
pub mod speech;
pub mod text;
pub mod text_laws;
pub mod wake_laws;
pub mod wakeword;
