//! A proxy in front of several vLLM servers that share the same hardware: it takes a request,
//! makes sure that its model is awake, and passes the request on.
pub mod config;
pub mod middleware;
pub mod mock_vllm;
pub mod policy;
pub mod switcher;
