pub mod speech;
pub mod recording;
