//! Verified core of a terminal blackjack basic-strategy calculator: the
//! strategy document model and its source-text parser, the repository of
//! loaded strategies with exact-match and fallback lookup, the action
//! resolver from hand value and dealer upcard to a recommended play, the
//! rule-configuration controller, and the screen navigation state machine.
//! Terminal rendering and event polling live outside this crate.

pub mod about;
pub mod actions;
pub mod calculator;
pub mod document;
pub mod ids;
pub mod json;
pub mod menu;
pub mod navigation;
pub mod repository;
pub mod resolver;
pub mod strategy;
pub mod text;

use vstd::prelude::*;

verus! {

/// Top-level application state for one run of the tool.
pub struct App {}

impl App {
    /// Creates a fresh application state.
    pub fn new() -> Self {
        Self {}
    }
}

} // verus!
