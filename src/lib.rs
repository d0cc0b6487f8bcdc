//! A signature scanner: signature tables of file digests, the parsers of
//! their two line formats, and the engine that folds the verdict of each
//! table into one result per scanned file.

pub mod db;
pub mod digest;
pub mod scan;
pub mod text;
