pub mod compatibility;
pub mod executables;
pub mod launch;
pub mod json;
pub mod protocol;
pub mod runner;
pub mod secrets;
pub mod acp;
pub mod prompt;
