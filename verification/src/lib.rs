//! Failure classification and status snapshot schema for a guest proxy agent.
//!
//! The crate has two independent parts: an opaque error facade that absorbs
//! heterogeneous failure causes behind a single renderable type, and the
//! serializable status records the agent's monitoring code hands to an
//! external consumer.

use vstd::prelude::*;

pub mod error;
pub mod json;
pub mod status;
pub mod status_code;

pub use error::Error;
pub use error::HyperErrorType;
pub use error::KeyErrorType;
pub use error::WireServerErrorType;
pub use status::GuestProxyAgentAggregateStatus;
pub use status::ModuleState;
pub use status::OverallState;
pub use status::ProxyAgentDetailStatus;
pub use status::ProxyAgentStatus;
pub use status::ProxyConnectionSummary;
pub use status_code::StatusCode;

verus! {

} // verus!
