//! Word and question statistics over directories of line-delimited question
//! records: per-site tallies, a global per-tag tally, and rankings of the
//! "chattiest" tags and sites by integer words-per-question ratio.

pub mod tag_data;
pub mod ranking;
pub mod record;
pub mod site_data;
pub mod total_stats;
pub mod general_stats;
