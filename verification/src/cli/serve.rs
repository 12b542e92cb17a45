//! What the serve command is asked for: its mode and the host it binds to.
use vstd::prelude::*;

verus! {

/// The host that a server binds to.
#[derive(Debug)]
pub struct ServeBindHost {
    pub host: String,
    /// Whether a mobile server was opened to the local network for want of a
    /// host.
    pub mobile_rebound_to_lan: bool,
}

/// The host that a server binds to: the one asked for, else the loopback, or
/// every interface for a mobile server.
pub fn resolve_serve_bind_host(mobile: bool, host: Option<String>) -> (bind: ServeBindHost)
    ensures
        bind.host@ == match host {
            Some(host) => host@,
            None => if mobile {
                "0.0.0.0"@
            } else {
                "127.0.0.1"@
            },
        },
        bind.mobile_rebound_to_lan == (mobile && host is None),
{
    match host {
        Some(host) => ServeBindHost { host, mobile_rebound_to_lan: false },
        None => if mobile {
            ServeBindHost { host: "0.0.0.0".to_string(), mobile_rebound_to_lan: true }
        } else {
            ServeBindHost { host: "127.0.0.1".to_string(), mobile_rebound_to_lan: false }
        },
    }
}

/// Why a choice of server modes is refused.
#[derive(Debug, Clone, Copy, PartialEq, Eq, Structural)]
pub enum ServeModeError {
    HttpAndMobile,
    WebWithHttpOrMobile,
    NotExactlyOne,
}

impl ServeModeError {
    /// What to tell the user.
    pub fn message(&self) -> (message: &'static str)
        ensures
            message@ == match *self {
                ServeModeError::HttpAndMobile =>
                    "--http and --mobile are mutually exclusive; choose one"@,
                ServeModeError::WebWithHttpOrMobile =>
                    "--web is mutually exclusive with --http and --mobile"@,
                ServeModeError::NotExactlyOne =>
                    "Choose exactly one server mode: --mcp, --http/--mobile/--web, or --acp"@,
            },
    {
        match self {
            ServeModeError::HttpAndMobile =>
                "--http and --mobile are mutually exclusive; choose one",
            ServeModeError::WebWithHttpOrMobile =>
                "--web is mutually exclusive with --http and --mobile",
            ServeModeError::NotExactlyOne =>
                "Choose exactly one server mode: --mcp, --http/--mobile/--web, or --acp",
        }
    }
}

/// Whether exactly one of three holds.
pub open spec fn exactly_one(a: bool, b: bool, c: bool) -> bool {
    (a || b || c) && !(a && b) && !(a && c) && !(b && c)
}

/// Checks the choice of server modes, and says whether it is an HTTP one: plain,
/// mobile or web.
pub fn validate_serve_mode_selection(
    mcp: bool,
    http: bool,
    mobile: bool,
    web: bool,
    acp: bool,
) -> (result: Result<bool, ServeModeError>)
    ensures
        result == if http && mobile {
            Err::<bool, ServeModeError>(ServeModeError::HttpAndMobile)
        } else if web && (http || mobile) {
            Err(ServeModeError::WebWithHttpOrMobile)
        } else if !exactly_one(mcp, http || mobile || web, acp) {
            Err(ServeModeError::NotExactlyOne)
        } else {
            Ok(http || mobile || web)
        },
        result is Ok ==> {
            &&& !(http && mobile) && !(http && web) && !(mobile && web)
            &&& !(mcp && acp) && !(mcp && (http || mobile || web)) && !(acp && (http || mobile
                || web))
            &&& mcp || acp || http || mobile || web
            &&& result->Ok_0 == (http || mobile || web)
        },
        result is Err ==> {
            ||| http && mobile
            ||| http && web
            ||| mobile && web
            ||| mcp && acp
            ||| mcp && (http || mobile || web)
            ||| acp && (http || mobile || web)
            ||| !(mcp || acp || http || mobile || web)
        },
{
    if http && mobile {
        return Err(ServeModeError::HttpAndMobile);
    }
    if web && (http || mobile) {
        return Err(ServeModeError::WebWithHttpOrMobile);
    }
    let http_selected = http || mobile || web;
    let mut selected_modes: usize = 0;
    if mcp {
        selected_modes += 1;
    }
    if http_selected {
        selected_modes += 1;
    }
    if acp {
        selected_modes += 1;
    }
    if selected_modes != 1 {
        return Err(ServeModeError::NotExactlyOne);
    }
    Ok(http_selected)
}

} // verus!
