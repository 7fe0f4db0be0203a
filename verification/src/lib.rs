//! Client-side plumbing shared by the MCPG command-line tools.

pub mod client;
pub mod clock;
pub mod codec;
pub mod context;
pub mod credentials;
pub mod files;
pub mod json;
pub mod jwt;
pub mod link;
pub mod login;
pub mod oidc;
pub mod paths;
pub mod refresh;
pub mod stream;
pub mod text;
