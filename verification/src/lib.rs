//! Verified core of `bucketctl`, an S3 shell with an SFTP-like workflow.

pub mod cdn;
pub mod cli;
pub mod command;
pub mod completion;
pub mod config;
pub mod dispatch;
pub mod error;
pub mod key_set;
pub mod local_path;
pub mod remote_path;
pub mod session;
pub mod text;
pub mod s3;
pub mod sorting;
pub mod ui;
pub mod shell_complete;
pub mod paths;
