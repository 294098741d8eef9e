//! The datasets that can be collected.

pub mod erc721_metadata;
