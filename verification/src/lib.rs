//! System metrics: the parsing, formatting and aggregation logic behind the
//! metrics snapshots, verified with Verus.

pub mod text;
pub mod num;
pub mod types;
pub mod proc_net;
pub mod refresh;
pub mod sys_api;
pub mod metrics;
pub mod gpu;
pub mod netstat;
pub mod win_net;
