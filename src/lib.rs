//! Drives prompt-based command-line programs through a pseudo-terminal,
//! with secrets that are wiped when released.
pub mod text;
pub mod ansi;
pub mod models;
pub mod pty;
pub mod parse;
pub mod zeroized;
pub mod cancel;
