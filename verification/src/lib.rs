//! Classification of stream-capture screenshots by file name, and the
//! decisions that relocate them into one directory per channel.

pub mod classifier;
pub mod relocation;
pub mod runner;
pub mod text;
