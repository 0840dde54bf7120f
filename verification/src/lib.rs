//! Document, reading-support and export logic for the rpdf study workspace.

pub mod backend;
pub mod domain;
pub mod dto;
pub mod export;
pub mod laws;
pub mod local_speech;
pub mod model;
pub mod ocr;
pub mod paths;
pub mod pressure;
pub mod reading;
pub mod services;
pub mod speech;
pub mod text;
pub mod workspace;
