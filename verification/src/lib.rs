//! Wake-on-LAN waker for a development box: the decisions behind the
//! magic packet, its rate limit, the wake loop, the redirect and the
//! configuration, each with its contract.

pub mod app;
pub mod config;
pub mod text;
pub mod time;
pub mod tunnel;
pub mod wake;
pub mod wol;
