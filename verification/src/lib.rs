use vstd::prelude::*;

pub mod text;
pub mod numbers;
pub mod clock;
pub mod display;
pub mod patterns;
pub mod title;
pub mod query;
pub mod search;
pub mod records;
pub mod serving;
pub mod catalog;
pub mod metadata;
pub mod crawl;
pub mod tools;
pub mod archive;
