use vstd::prelude::*;
use crate::params::lookup;
use crate::request::{HTTPRequest, RequestView};
use crate::response::{HTTPResponse, ResponseView, plain_response};
use crate::routing::{Middleware, result_view};

verus! {

/// Passes a request that carries a non-empty `X-API-Key` header; answers 401 otherwise.
pub open spec fn api_key_outcome(req: RequestView) -> Result<RequestView, ResponseView> {
    match lookup(req.headers, "X-API-Key"@) {
        Some(key) => if key.len() > 0 {
            Ok(req)
        } else {
            Err(plain_response(401, "API key required"@))
        },
        None => Err(plain_response(401, "API key required"@)),
    }
}

/// Passes a request whose `X-Admin-Key` header is `supersecret`; answers 403 otherwise.
pub open spec fn admin_outcome(req: RequestView) -> Result<RequestView, ResponseView> {
    if lookup(req.headers, "X-Admin-Key"@) == Some("supersecret"@) {
        Ok(req)
    } else {
        Err(plain_response(403, "Admin access required"@))
    }
}

/// Requires an API key.
#[derive(Clone, Copy, Debug)]
pub struct ApiKeyCheck;

/// Requires the admin key.
#[derive(Clone, Copy, Debug)]
pub struct AdminCheck;

impl Middleware for ApiKeyCheck {
    open spec fn outcome(&self, req: RequestView) -> Result<RequestView, ResponseView> {
        api_key_outcome(req)
    }

    fn call(&self, req: HTTPRequest) -> (r: Result<HTTPRequest, HTTPResponse>) {
        match req.get_header("X-API-Key") {
            Some(key) => {
                if key.as_str().is_empty() {
                    Err(HTTPResponse::new(401, "API key required"))
                } else {
                    Ok(req)
                }
            },
            None => Err(HTTPResponse::new(401, "API key required")),
        }
    }
}

impl Middleware for AdminCheck {
    open spec fn outcome(&self, req: RequestView) -> Result<RequestView, ResponseView> {
        admin_outcome(req)
    }

    fn call(&self, req: HTTPRequest) -> (r: Result<HTTPRequest, HTTPResponse>) {
        let expected = "supersecret".to_owned();
        match req.get_header("X-Admin-Key") {
            Some(key) => {
                if key == expected {
                    Ok(req)
                } else {
                    Err(HTTPResponse::new(403, "Admin access required"))
                }
            },
            None => Err(HTTPResponse::new(403, "Admin access required")),
        }
    }
}

} // verus!
