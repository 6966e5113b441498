//! Stash web pages as local markdown: the verified core of `bo`.

pub mod text;
pub mod markdown;
pub mod fetch;
pub mod ledger;
pub mod paths;
pub mod config;
pub mod pipeline;
pub mod raze;
