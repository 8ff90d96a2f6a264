//! Verified core of the authentication layer of a single-user notes server.

pub mod auth;
pub mod backup;
pub mod change;
pub mod clock;
pub mod cookie;
pub mod credentials;
pub mod laws;
pub mod policy;
pub mod promises;
pub mod runs;
pub mod secrets;
pub mod state;
pub mod table;
pub mod text;
pub mod token;
pub mod totp;

pub use auth::{Auth, BootstrapError, StoredAccount};
pub use change::{CredentialChange, Written};
pub use cookie::{
    build_logout_cookie, build_session_cookie, extract_session_token, SESSION_COOKIE_NAME,
};
pub use credentials::{Credentials, SecondFactor, TwoFactor};
pub use secrets::{constant_time_eq, validate_password_strength};
pub use state::{LoginOutcome, TwoFactorLogin};
