//! Spreadsheet viewing logic: cell values and their text forms, sheet and
//! table data, CSV/TSV loading, exports, the interactive viewer's state
//! machine, and the computations behind its screen layout.

pub mod cell;
pub mod cli;
pub mod clipboard;
pub mod csv_file;
pub mod dates;
pub mod display;
pub mod event;
pub mod export;
pub mod jump;
pub mod keys;
pub mod layout;
pub mod number;
pub mod progress;
pub mod sheet;
pub mod source;
pub mod state;
pub mod text;
pub mod theme;
pub mod utils;
pub mod viewer;
