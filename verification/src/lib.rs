//! DORA delivery metrics over GitHub activity.
pub mod app;
pub mod breakdown;
pub mod clock;
pub mod config;
pub mod demo;
pub mod display;
pub mod github;
pub mod laws;
pub mod metrics;
pub mod seqs;
pub mod sorting;
pub mod summary;
pub mod text;
pub mod types;
