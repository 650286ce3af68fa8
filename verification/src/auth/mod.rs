//! Who a caller is.

pub mod chain;
pub mod resolver;
pub mod settings;

pub use crate::auth::resolver::{AuthError, ResolvedIdentity};
