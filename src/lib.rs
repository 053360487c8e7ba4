//! The engine of a VT-style terminal emulator: a parser for ANSI escape sequences, a cell
//! grid with cursor, scroll region, saved cursor and alternate screen, and the controller that
//! applies parsed output to the grid. Every operation is stated over a mathematical view of the
//! state (`BufferView`, `TerminalView`) and proved against it.

pub mod cursor;
pub mod colors;
pub mod cell;
pub mod buffer;
pub mod grid;
pub mod sequences;
pub mod sgr_list;
pub mod parser;
pub mod round_trip;
pub mod pty_reader;
pub mod terminal;
pub mod laws;
pub mod debug;
