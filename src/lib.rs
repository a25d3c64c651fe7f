//! Credential broker for single sign-on profiles: configuration sections,
//! the device-authorization flow, the token cache, the role-credential
//! store, the refresh of every profile of a session, and the status view
//! built from them.

pub mod cache;
pub mod config;
pub mod credentials;
pub mod error;
pub mod flow;
pub mod keyed;
pub mod process;
pub mod refresh;
pub mod status;
pub mod text;
pub mod time;

pub use cache::{ClientRegistration, SsoToken, TokenCache};
pub use config::{AwsConfigSections, Profile, Session};
pub use credentials::{CredentialStore, RoleCredentials};
pub use error::{Error, ErrorKind};
pub use process::ProcessState;
