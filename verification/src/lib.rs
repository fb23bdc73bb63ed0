//! A library for planning the download of course material from Udemy.

pub mod command;
pub mod complete;
pub mod download;
pub mod downloader;
pub mod error;
pub mod info;
pub mod json;
pub mod mocks;
pub mod model;
pub mod parser;
pub mod path;
pub mod test_data;
pub mod text;
pub mod udemy_helper;
pub mod utils;
