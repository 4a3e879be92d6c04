//! A sliding-window admission check keyed by client identity.
//!
//! Each client's recent request times are kept as a list of Unix-second
//! timestamps in an external key-value store. On every check the list is
//! read, stale entries are pruned, the current time is appended, the list
//! is written back, and the request is admitted exactly when the list is
//! still within the threshold. A failing store rejects the request
//! (fail-closed).

pub mod codec;
pub mod limiter;
pub mod store;
pub mod window;

pub use limiter::check;
pub use limiter::decide_after_write;
pub use limiter::plan_update;
pub use limiter::RateLimitError;
pub use limiter::WritePlan;
pub use store::KeyValueStore;
pub use store::MemStore;
pub use store::StoreError;
pub use window::MAX_REQUESTS;
pub use window::WINDOW_SECONDS;
