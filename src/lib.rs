//! Structured data from photographed receipts: image preparation for OCR, the choice
//! between a local and a cloud OCR engine, and the extraction of total, date, merchant
//! and items from the text they read.

pub mod config;
pub mod error;
pub mod text;
pub mod total;
pub mod date;
pub mod merchant;
pub mod items;
pub mod extract;
pub mod orchestrator;
pub mod preprocess;
pub mod cloud;
