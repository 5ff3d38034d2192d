pub mod deep_diagnose;
pub mod diagnostics;
pub mod linux_game;
pub mod load_tools;
pub mod registry;
pub mod report;
pub mod scripts;
