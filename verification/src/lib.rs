//! Verified core of the Korgi beat-detection service: beat selection and
//! tempo statistics, authentication decisions, upload limits, and the job
//! lifecycle that drives background analysis.

pub mod analyzer;
pub mod text;
pub mod jobs;
pub mod worker;
pub mod upload;
pub mod config;
pub mod auth;
pub mod beats_json;
pub mod tokens;
pub mod register;
