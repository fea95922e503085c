//! Verified core of the agentkernel sandbox service: identity handling,
//! interactive permissions, image bookkeeping, scheduling decisions and
//! the request-routing and validation rules of the HTTP API.

pub mod clock;
pub mod create_plan;
pub mod digest;
pub mod exec_request;
pub mod http_api;
pub mod hyperlight_backend;
pub mod identity;
pub mod image_builder;
pub mod images;
pub mod job_scheduler;
pub mod json;
pub mod orchestration;
pub mod permissions;
pub mod policy;
pub mod recreate_plan;
pub mod resize_plan;
pub mod routes;
pub mod run_stream;
pub mod sandbox_listing;
pub mod text;
