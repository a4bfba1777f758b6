//! Core logic of a quiz-taking application.
//!
//! The library owns the quiz data model, the fallback rules of the quiz
//! loader, the filtering and ordering of the quiz directory listing, and the
//! state machine that tracks the user's progress through a quiz and computes
//! the final score.  File reads, YAML decoding and all rendering live outside
//! the library and hand it plain values.

pub mod app;
pub mod models;
pub mod quiz_loader;
pub mod text;
