//! The data model shared by every dataset.

pub mod collection;
pub mod dataframes;
pub mod datatypes;
pub mod errors;
pub mod files;
pub mod maps;
pub mod partitions;
pub mod queries;
pub mod schemas;
