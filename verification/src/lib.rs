use vstd::prelude::*;

pub mod text;
pub mod tags;
pub mod annotation;
pub mod reader;
pub mod segments;
pub mod timeline;
pub mod paginate;
pub mod http;
pub mod save_state;
pub mod local_store;
pub mod reader_view;
pub mod digest;
pub mod account;
pub mod community;
pub mod parse;
pub mod learning;
pub mod ai;
pub mod desk;
pub mod pdf_reader;
pub mod gate;
pub mod library;
