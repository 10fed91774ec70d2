//! Workbook facade over a calculation engine: cell edits with change logging,
//! custom and WASM function registries, named ranges and workbook settings.

pub mod action;
pub mod address;
pub mod batch;
pub mod batch_formulas;
pub mod batch_range;
pub mod book;
pub mod cell_data;
pub mod cells;
pub mod config;
pub mod engine;
pub mod error;
pub mod export;
pub mod formula;
pub mod function;
pub mod grid;
pub mod host;
pub mod laws_action;
pub mod laws_batch;
pub mod laws_cells;
pub mod laws_export;
pub mod laws_functions;
pub mod laws_grid;
pub mod laws_history;
pub mod laws_modules;
pub mod laws_names;
pub mod laws_reads;
pub mod laws_records;
pub mod laws_registry;
pub mod laws_repeat;
pub mod laws_same;
pub mod laws_spot;
pub mod laws_spots;
pub mod laws_spots_formulas;
pub mod laws_spots_range;
pub mod laws_staged;
pub mod laws_undo;
pub mod laws_values;
pub mod laws_workbook;
pub mod laws_writer;
pub mod manifest;
pub mod module_files;
pub mod names;
pub mod reads;
pub mod registry;
pub mod resolver;
pub mod runtime;
pub mod store;
pub mod text;
pub mod text_map;
pub mod value;
pub mod wasm;
pub mod workbook;
pub mod writer;
