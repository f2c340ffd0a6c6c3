use vstd::prelude::*;

pub mod checks;
pub mod laws;
pub mod number;
pub mod params;
pub mod pattern;
pub mod request;
pub mod response;
pub mod roundtrip;
pub mod routing;
pub mod server;
pub mod text;

pub use checks::{AdminCheck, ApiKeyCheck};
pub use params::Params;
pub use request::{HTTPRequest, ParseError};
pub use response::HTTPResponse;
pub use routing::{Handler, Middleware, Route, Router};
pub use server::HTTPServer;

verus! {

} // verus!
