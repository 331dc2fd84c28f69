//! Export of a metrics snapshot in the remote-write format: encoding,
//! compression, push outcomes, the push schedule, and bearer-token checks.
pub mod allowers;
pub mod wire;
pub mod labels;
pub mod snapshot;
pub mod encoder;
pub mod outcome;
pub mod payload;
pub mod scheduler;
pub mod request_status;
