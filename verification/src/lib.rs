//! Core of a small desktop companion: its moods and timers, its clips, and the
//! conversation it holds with a local language model.

pub mod animation;
pub mod app;
pub mod app_laws;
pub mod assets;
pub mod catalog;
pub mod clock;
pub mod conversation_laws;
pub mod json;
pub mod llm;
pub mod llm_laws;
pub mod state;
pub mod state_laws;
pub mod text;
pub mod text_laws;
