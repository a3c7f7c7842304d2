//! What happens to a request on its way through the gateway.
pub mod embedded;
pub mod forwarding;
pub mod admission;
pub mod relay;
pub mod exchange;
pub mod reasoning;
pub mod response_id;
