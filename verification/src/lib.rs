//! JavaScript-as-a-service core: the script registry, the request dispatcher,
//! the evaluation protocol of a worker's interpreter context, and the host
//! side of the `btoa` / `atob` globals.

pub mod base64;
pub mod clock;
pub mod dispatch;
pub mod engine;
pub mod ident;
pub mod registry;
pub mod settings;
pub mod text;
pub mod ticket;
