pub mod app;
pub mod config;
pub mod helper;
pub mod json;
pub mod lyrics;
pub mod models;
pub mod paths;
pub mod probe;
pub mod scanner;
pub mod sorting;
pub mod text;
pub mod ui;
