//! How datasets are collected.

pub mod collect_by_block;
pub mod pipeline;
