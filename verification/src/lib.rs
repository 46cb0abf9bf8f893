pub mod text;
pub mod input;
pub mod ui;
pub mod markdown;
pub mod permissions;
pub mod contract;
pub mod gui;
pub mod statusbar;
pub mod shell;
pub mod computer_use;
pub mod hooks;
pub mod llm;
pub mod skills;
pub mod mcp;
pub mod memory;
pub mod observations;
pub mod json;
pub mod goals;
pub mod goal_store;
pub mod tools;
pub mod agent;
pub mod patterns;
pub mod test_harness;
pub mod evals;
pub mod skill_store;
pub mod wire;
pub mod activity;
pub mod browser;
pub mod tool_runtime;
pub mod recall;
pub mod turn;
