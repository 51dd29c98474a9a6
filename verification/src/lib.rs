//! The card game "No Thanks" as a verified decision process: the rules of
//! play, the scoring, what a best-move search needs of a position, and the
//! recovery of a position from what an observer at the table reports.

pub mod cards;
pub mod chance;
pub mod equality;
pub mod evaluator;
pub mod fingerprint;
pub mod game;
pub mod holdings;
pub mod moves;
pub mod position;
pub mod reconstruct;
pub mod scoring;
pub mod session;

pub use crate::evaluator::MyEvaluator;
pub use crate::game::NoThanksGame;
pub use crate::moves::{GameError, Move, Player};
pub use crate::reconstruct::reconstruct;
pub use crate::session::{Event, Prompt, Session};
