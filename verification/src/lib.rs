//! Logic of a visual block-programming editor: key and mouse state, text
//! editing, focus and hover of widgets, the containers that blocks are
//! dropped in, the editor's decisions, the values of programs as conditions,
//! the names of their variables, and their Python text, each stated and
//! proved with Verus.

pub mod key_state;
pub mod keys_state;
pub mod input;
pub mod widgets;
pub mod text_input;
pub mod manager;
pub mod runner;
pub mod blocs;
pub mod ast;
pub mod transpile;
pub mod front;
pub mod select;
pub mod controls;
