use vstd::prelude::*;

pub mod text;
pub mod path;
pub mod assoc;
pub mod hex;
pub mod crypto;
pub mod meta;
pub mod pipeline;
pub mod bundle;
pub mod rerun;
pub mod schedule;
pub mod node_run;
pub mod scan;
pub mod hls;
pub mod auth;
pub mod update;
pub mod community;
pub mod offline;
pub mod disk;
pub mod recorder;
pub mod monitor;
pub mod stripchat;
pub mod relay;
pub mod segment_merge;
pub mod queue;
pub mod recordings;
pub mod app_state;
pub mod notifications;
pub mod fs_browser;
pub mod sorting;
pub mod maintenance;
pub mod scheduler;
pub mod discovery;
pub mod auth_flow;
pub mod sessions;
pub mod media;
pub mod fingerprint;
