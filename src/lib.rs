//! Perception and strategy-execution engine for a tower-defense automation
//! tool: digit extraction from recognized text, the frame cache, text
//! queries, the key-sequence planner and the strategy sequencer.

pub mod game;
pub mod input;
pub mod keys;
pub mod logitech;
pub mod monitor;
pub mod ocr;
pub mod preprocess;
pub mod stop_flag;
pub mod strategy;
pub mod strategy_executor;
pub mod text;
