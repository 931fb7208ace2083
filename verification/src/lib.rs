//! The logic of an audio book player: the books of a folder, their chapters and the
//! listening positions saved between sessions, the open book, and what the player
//! screens show and seek to.

pub mod audio;
pub mod file_manager;
pub mod file_name;
pub mod filemanager;
pub mod ui;
pub mod util;
