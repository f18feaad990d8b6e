//! Core of a MUD client's terminal display: an interpreter that turns
//! print / control / CSI events into a styled, line-oriented scrollback
//! buffer, and a windower that selects the visible cells for a viewport.

pub mod char_line;
pub mod char_resolver;
pub mod utils;
pub mod windower;
