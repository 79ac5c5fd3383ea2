use vstd::prelude::*;

pub mod json;
pub mod json_text;
pub mod canonical;
pub mod error;
pub mod dto;
pub mod config;
pub mod prompt;
pub mod provider;
pub mod llm;
pub mod storage;
pub mod db;
pub mod repo;
pub mod styles;
pub mod images;
pub mod generate;
pub mod misc;
pub mod takeover;
pub mod text;

verus! {
} // verus!
