use vstd::prelude::*;

pub mod api;
pub mod byte_range;
pub mod config;
pub mod entry;
pub mod media_info;
pub mod named_map;
pub mod storage;
pub mod text;
pub mod tvshow;
pub mod ui;
pub mod video;
pub mod views;
pub mod worker;

verus! {
} // verus!
