//! Telemetry faces of the sidebar: skills, SPAI records, MCP calls, quotas,
//! git and weather, as read from pi's session logs and side files.
pub mod skills;
pub mod skills_live;
pub mod spai_live;
pub mod mcp_live;
pub mod session_log;
pub mod context_usage;
pub mod model_catalog;
pub mod session_stats;
pub mod quota_live;
pub mod git_live;
pub mod openrouter_live;
pub mod session_finder;
pub mod weather_live;
