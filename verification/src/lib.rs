//! A quiz-game library: a bounded, ordered, per-course ranking store with
//! a submission policy engine, leaderboard queries and medal aggregation,
//! together with the quiz question generators the game is played with.

pub mod aggregate;
pub mod api;
pub mod clock;
pub mod config;
pub mod counting;
pub mod leaderboard;
pub mod normalize;
pub mod policy;
pub mod quiz;
pub mod quizzes;
pub mod record;
pub mod rng;
pub mod stats;
pub mod store;
pub mod text;
pub mod user;
pub mod util;
