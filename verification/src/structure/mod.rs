pub mod instructions;
pub mod modules;
pub mod types;
