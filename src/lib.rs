//! Request dispatch for a generated RPC server runtime: route specifications,
//! route matching with deterministic specificity ranking, the rejection
//! taxonomy, and the small helpers that surround them.
pub mod method;
pub mod uri;
pub mod request;
pub mod request_spec;
pub mod response;
pub mod outcome;
pub mod rest_router;
pub mod aws_json_router;
pub mod routing;
pub mod rejection;
pub mod any_rejections;
pub mod anchor;
pub mod identity;
pub mod idempotency_token;
pub mod publish;
pub mod yank_release;
