//! Conventional-commit authoring engine: change groups, their rendering and
//! re-parsing, the duplicate-file check, and the interactive state machine.

pub mod ai;
pub mod copilot;
pub mod editor;
pub mod git;
pub mod inference;
pub mod logging;
pub mod output;
pub mod round_trip;
pub mod text;
pub mod types;
pub mod ui;
