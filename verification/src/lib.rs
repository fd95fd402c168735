//! Verified core of the Venya voice assistant: text normalisation for speech
//! synthesis, speaker catalogue, transcript parsing and the decision logic of
//! the user-interface components.

pub mod spans;
pub mod strings;
pub mod number_words;
pub mod text_normalizer;
pub mod kokoro;
pub mod transcript;
pub mod python_runner;
pub mod audio;
pub mod select;
pub mod text_field;
pub mod badge;
pub mod avatar;
pub mod typography;
pub mod icons;
pub mod image_loader;
pub mod speech_screen;
pub mod calendar;
