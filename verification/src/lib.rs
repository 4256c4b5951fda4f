//! A steam locomotive that crosses the terminal, in three variations of the
//! program: `classic`, `tui` and `plume`. Each computes the frames of the
//! animation as lists of draws clipped to the screen (`frame`), moves the
//! smoke that the locomotive leaves behind, and reacts to the options and
//! the input events; `terminal` holds the set-up and restoring of the
//! terminal, `art` the pictures and `geometry` the placement arithmetic.
pub mod art;
pub mod classic;
pub mod frame;
pub mod geometry;
pub mod plume;
pub mod terminal;
pub mod tui;
