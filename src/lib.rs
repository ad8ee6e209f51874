//! Parsers for two line-oriented bioinformatics formats: a sequence format of
//! named DNA scaffolds, and a tab-separated format of feature annotations.

pub mod data;
pub mod fasta;
pub mod gff;
pub mod text;
