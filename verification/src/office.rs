//! State machines of the office surfaces that publish to the ledger: cell
//! references, calendar arithmetic, and the editor, grid and tree widgets.

pub mod calendar;
pub mod editor;
pub mod events;
pub mod grid;
pub mod tree;
pub mod ui;
