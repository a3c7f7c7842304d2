pub mod auth;
pub mod cache;
pub mod cache_usage;
pub mod errors;
pub mod handlers;
pub mod headers;
pub mod histories;
pub mod json;
pub mod load_balancer;
pub mod model_switcher;
pub mod models;
pub mod names;
pub mod operations;
pub mod script_tools;
pub mod settings;
pub mod span;
pub mod sse;
pub mod switch_proxy;
pub mod target;
pub mod test_utils;
pub mod text;
