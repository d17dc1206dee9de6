//! HTTP Basic authentication against an htpasswd credential store, followed
//! by a per-resource authorization policy.
pub mod auth_control;
pub mod auth_data;
pub mod codec;
pub mod error;
pub mod htpasswd_database;
pub mod text;
pub mod user_control_policy;

pub use auth_control::{AuthControl, AuthResult, Denial, Outcome};
pub use error::Error;
pub use htpasswd_database::HtpasswdDatabase;
pub use user_control_policy::UserControlPolicy;
