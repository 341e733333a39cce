use vstd::prelude::*;

pub mod clock;
pub mod filter;
pub mod format;
pub mod html;
pub mod human;
pub mod interceptor;
pub mod laws;
pub mod parse;
pub mod resolve;
pub mod server;
pub mod severity;
pub mod strutil;
pub mod util;

pub use severity::Severity;
pub use severity::severity_for;
