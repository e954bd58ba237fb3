//! Routing decisions of the gateway: which upstream service a proxied request goes to and
//! at which URL, which response headers come back, where the WebSocket proxy connects, and
//! what a GraphQL request body asks.
use vstd::prelude::*;
use vstd::string::StringExecFns;
use crate::json::{Json, JsonView, field_of, text_or_empty};
use crate::text::{
    append_chars, chars_of, replace_all, replace_all_chars, same_text, string_of, trim_end_char,
    trim_end_char_chars,
};

verus! {

/// The base URLs of the upstream services.
pub struct ServiceUrls {
    pub identity_url: String,
    pub sis_url: String,
    pub academic_url: String,
    pub attendance_url: String,
    pub notifications_url: String,
    pub finance_url: String,
    pub reporting_url: String,
    pub frontend_url: String,
}

/// Why a request cannot be proxied.
pub enum ProxyError {
    /// The handler named a service that the gateway does not know; answered with
    /// `400 Unknown service`.
    UnknownService,
}

impl ServiceUrls {
    /// The base URL of the service named `service`, if the gateway knows it.
    pub open spec fn base_for(self, service: Seq<char>) -> Option<String> {
        if service == "identity"@ {
            Some(self.identity_url)
        } else if service == "sis"@ {
            Some(self.sis_url)
        } else if service == "academic"@ {
            Some(self.academic_url)
        } else if service == "attendance"@ {
            Some(self.attendance_url)
        } else if service == "notifications"@ {
            Some(self.notifications_url)
        } else if service == "finance"@ {
            Some(self.finance_url)
        } else if service == "reporting"@ {
            Some(self.reporting_url)
        } else {
            None
        }
    }

    /// Each service name is routed to its own service: `identity`, `sis`, `academic`,
    /// `attendance`, `notifications`, `finance` and `reporting` each to the URL configured
    /// for that service, and every other name to none.
    pub proof fn routes_each_service(self, service: Seq<char>)
        ensures
            service == "identity"@ ==> self.base_for(service) == Some(self.identity_url),
            service == "sis"@ ==> self.base_for(service) == Some(self.sis_url),
            service == "academic"@ ==> self.base_for(service) == Some(self.academic_url),
            service == "attendance"@ ==> self.base_for(service) == Some(self.attendance_url),
            service == "notifications"@ ==> self.base_for(service) == Some(self.notifications_url),
            service == "finance"@ ==> self.base_for(service) == Some(self.finance_url),
            service == "reporting"@ ==> self.base_for(service) == Some(self.reporting_url),
            self.base_for(service) is None <==> !(service == "identity"@ || service == "sis"@
                || service == "academic"@ || service == "attendance"@ || service == "notifications"@
                || service == "finance"@ || service == "reporting"@),
    {
        reveal_strlit("identity");
        reveal_strlit("sis");
        reveal_strlit("academic");
        reveal_strlit("attendance");
        reveal_strlit("notifications");
        reveal_strlit("finance");
        reveal_strlit("reporting");
        assert("identity"@ != "sis"@) by {
            assert("identity"@[0] != "sis"@[0]);
        }
        assert("identity"@ != "academic"@) by {
            assert("identity"@[0] != "academic"@[0]);
        }
        assert("identity"@ != "attendance"@) by {
            assert("identity"@[0] != "attendance"@[0]);
        }
        assert("identity"@ != "notifications"@) by {
            assert("identity"@[0] != "notifications"@[0]);
        }
        assert("identity"@ != "finance"@) by {
            assert("identity"@[0] != "finance"@[0]);
        }
        assert("identity"@ != "reporting"@) by {
            assert("identity"@[0] != "reporting"@[0]);
        }
        assert("sis"@ != "academic"@) by {
            assert("sis"@[0] != "academic"@[0]);
        }
        assert("sis"@ != "attendance"@) by {
            assert("sis"@[0] != "attendance"@[0]);
        }
        assert("sis"@ != "notifications"@) by {
            assert("sis"@[0] != "notifications"@[0]);
        }
        assert("sis"@ != "finance"@) by {
            assert("sis"@[0] != "finance"@[0]);
        }
        assert("sis"@ != "reporting"@) by {
            assert("sis"@[0] != "reporting"@[0]);
        }
        assert("academic"@ != "attendance"@) by {
            assert("academic"@[1] != "attendance"@[1]);
        }
        assert("academic"@ != "notifications"@) by {
            assert("academic"@[0] != "notifications"@[0]);
        }
        assert("academic"@ != "finance"@) by {
            assert("academic"@[0] != "finance"@[0]);
        }
        assert("academic"@ != "reporting"@) by {
            assert("academic"@[0] != "reporting"@[0]);
        }
        assert("attendance"@ != "notifications"@) by {
            assert("attendance"@[0] != "notifications"@[0]);
        }
        assert("attendance"@ != "finance"@) by {
            assert("attendance"@[0] != "finance"@[0]);
        }
        assert("attendance"@ != "reporting"@) by {
            assert("attendance"@[0] != "reporting"@[0]);
        }
        assert("notifications"@ != "finance"@) by {
            assert("notifications"@[0] != "finance"@[0]);
        }
        assert("notifications"@ != "reporting"@) by {
            assert("notifications"@[0] != "reporting"@[0]);
        }
        assert("finance"@ != "reporting"@) by {
            assert("finance"@[0] != "reporting"@[0]);
        }
    }

    /// The base URL of the service named `service`.
    pub fn base_url(&self, service: &str) -> (r: Option<&String>)
        ensures
            match r {
                Some(u) => self.base_for(service@) == Some(*u),
                None => self.base_for(service@) is None,
            },
            service@ == "identity"@ ==> r == Some(&self.identity_url),
            service@ == "sis"@ ==> r == Some(&self.sis_url),
            service@ == "academic"@ ==> r == Some(&self.academic_url),
            service@ == "attendance"@ ==> r == Some(&self.attendance_url),
            service@ == "notifications"@ ==> r == Some(&self.notifications_url),
            service@ == "finance"@ ==> r == Some(&self.finance_url),
            service@ == "reporting"@ ==> r == Some(&self.reporting_url),
            r is None <==> !(service@ == "identity"@ || service@ == "sis"@ || service@ == "academic"@
                || service@ == "attendance"@ || service@ == "notifications"@ || service@ == "finance"@
                || service@ == "reporting"@),
    {
        proof {
            self.routes_each_service(service@);
        }
        if same_text(service, "identity") {
            Some(&self.identity_url)
        } else if same_text(service, "sis") {
            Some(&self.sis_url)
        } else if same_text(service, "academic") {
            Some(&self.academic_url)
        } else if same_text(service, "attendance") {
            Some(&self.attendance_url)
        } else if same_text(service, "notifications") {
            Some(&self.notifications_url)
        } else if same_text(service, "finance") {
            Some(&self.finance_url)
        } else if same_text(service, "reporting") {
            Some(&self.reporting_url)
        } else {
            None
        }
    }

    /// The upstream URL for a request to `service` with the given path and query: the
    /// base URL, the path, and `?` with the query when there is one.
    pub fn proxy_target(&self, service: &str, path: &str, query: Option<&str>) -> (r: Result<
        String,
        ProxyError,
    >)
        ensures
            match self.base_for(service@) {
                Some(base) => r matches Ok(u) && u@ == upstream_text(base@, path@, query_view(query)),
                None => r matches Err(ProxyError::UnknownService),
            },
    {
        match self.base_url(service) {
            Some(base) => Ok(upstream_url(base.as_str(), path, query)),
            None => Err(ProxyError::UnknownService),
        }
    }
}

/// The texts of an optional query string.
pub open spec fn query_view(query: Option<&str>) -> Option<Seq<char>> {
    match query {
        Some(q) => Some(q@),
        None => None,
    }
}

/// The upstream URL: base, path, and `?` with the query when there is one.
pub open spec fn upstream_text(base: Seq<char>, path: Seq<char>, query: Option<Seq<char>>) -> Seq<
    char,
> {
    base + path + match query {
        Some(q) => "?"@ + q,
        None => Seq::<char>::empty(),
    }
}

/// The upstream URL for a proxied request.
pub fn upstream_url(base: &str, path: &str, query: Option<&str>) -> (r: String)
    ensures
        r@ == upstream_text(base@, path@, query_view(query)),
        match query {
            Some(q) => r@ == base@ + path@ + "?"@ + q@,
            None => r@ == base@ + path@,
        },
{
    let mut r = String::from_str(base);
    r.append(path);
    match query {
        Some(q) => {
            r.append("?");
            r.append(q);
        },
        None => {},
    }
    r
}

/// Whether an upstream response header is passed on to the client: all are but `host`
/// and `transfer-encoding`.
pub fn forward_response_header(name: &str) -> (r: bool)
    ensures
        r == !(name@ == "host"@ || name@ == "transfer-encoding"@),
{
    !(same_text(name, "host") || same_text(name, "transfer-encoding"))
}

/// The text of the `502` answer when `service` cannot be reached.
pub fn unavailable_message(service: &str) -> (r: String)
    ensures
        r@ == "Service "@ + service@ + " unavailable"@,
{
    let mut r = String::from_str("Service ");
    r.append(service);
    r.append(" unavailable");
    r
}

/// The WebSocket URL of the notification service for its HTTP base URL: every `http://`
/// becomes `ws://`, then every `https://` becomes `wss://`, trailing slashes go, and
/// `/ws` is added.
pub open spec fn ws_text(upstream: Seq<char>) -> Seq<char> {
    trim_end_char(
        replace_all(replace_all(upstream, "http://"@, "ws://"@), "https://"@, "wss://"@),
        '/',
    ) + "/ws"@
}

/// The WebSocket URL that the gateway connects to for the notification service.
pub fn ws_upstream_url(upstream: &str) -> (r: String)
    ensures
        r@ == ws_text(upstream@),
{
    proof {
        reveal_strlit("http://");
        reveal_strlit("https://");
    }
    let u = chars_of(upstream);
    let http = chars_of("http://");
    let ws = chars_of("ws://");
    let https = chars_of("https://");
    let wss = chars_of("wss://");
    let a = replace_all_chars(&u, &http, &ws);
    let b = replace_all_chars(&a, &https, &wss);
    let mut c = trim_end_char_chars(&b, '/');
    let tail = chars_of("/ws");
    append_chars(&mut c, &tail);
    string_of(c.as_slice())
}

/// The query text of a GraphQL request body: its `query` string, or empty.
pub fn graphql_query_text(body: &Json) -> (r: String)
    ensures
        r@ == text_or_empty(body@, "query"@),
{
    crate::json::text_field(body, "query")
}

/// The variables of a GraphQL request body: its `variables` member when that is an
/// object.
pub fn graphql_variables(body: &Json) -> (r: Option<&Json>)
    ensures
        match r {
            Some(v) => field_of(body@, "variables"@) == Some(v@) && v@ is Object,
            None => !(field_of(body@, "variables"@) matches Some(JsonView::Object(_))),
        },
{
    match body.get("variables") {
        Some(v) => match v {
            Json::Object(_) => Some(v),
            _ => None,
        },
        None => None,
    }
}

} // verus!
