pub mod data;
pub mod effective;
pub mod evaluator;
pub mod flake;
pub mod names;
pub mod orchestrator;
pub mod overrides;
pub mod preflight;
pub mod select;
pub mod settings;
