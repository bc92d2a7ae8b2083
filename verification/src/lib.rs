//! A reverse webhook tunnel: peers behind a firewall register over a
//! persistent duplex connection and receive, as text frames, the HTTP
//! requests that arrive at the public relay path for their identifier.

pub mod assets;
pub mod dispatch;
pub mod encoder;
pub mod identifier;
pub mod message;
pub mod oauth;
pub mod registry;
pub mod relay;
pub mod reply;
pub mod session;
pub mod text;
pub mod tunnel;
