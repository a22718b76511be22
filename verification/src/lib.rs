//! Client-side request policy for HTTP: which requests are retried and when,
//! what is logged of them, how they pass through middleware, and which URLs
//! they may be sent to.

pub mod error;
pub mod evidence;
pub mod headers;
pub mod into_url;
pub mod logging;
pub mod message;
pub mod middleware;
pub mod retry;
pub mod time;

pub use error::Error;
pub use into_url::{IntoUrl, Url};
pub use logging::{Logger, LoggerFormatter};
pub use middleware::{Middleware, Next};
pub use time::Duration;
