//! Account-pool scheduling and request transformation for a local AI gateway.

pub mod table;
pub mod ids;
pub mod config;
pub mod text;
pub mod json;
pub mod gemini;
pub mod signature_cache;
pub mod sticky;
pub mod pool;
pub mod dispatch;
pub mod admin;
pub mod log_bridge;
pub mod logs;
