//! Transaction records: the request and response legs of one mirrored HTTP
//! transaction, assembled from normalized headers and finalized bodies, plus
//! the derived identity fields.

use vstd::prelude::*;
use vstd::string::{StrSliceExecFns, StringExecFns};
use crate::body::{body_matches, encode_body, opt_view, BodyValue};
use crate::config::Config;
use crate::headers::{lookup, strip_pseudo, HeaderMap};
use crate::ip::{is_ip_literal, is_ip_literal_str};
use crate::strutil::{parses_as_usize, split_on, split_str, trim_seq, trim_str, usize_val};

verus! {

/// Relies on chrono's Utc::now().to_rfc3339() for the wall-clock creation
/// timestamp of a record; nothing is assumed of the clock's value.
#[verifier::external_body]
fn now_rfc3339() -> String {
    chrono::Utc::now().to_rfc3339()
}

/// The request leg of a record.
pub struct RequestInfo {
    pub time: String,
    pub verb: String,
    pub uri: String,
    pub headers: HeaderMap,
    pub transfer_encoding: Option<String>,
    pub api_version: Option<String>,
    pub ip_address: Option<String>,
    pub body: BodyValue,
}

/// The response leg of a record, created lazily on the first response
/// message.
pub struct ResponseInfo {
    pub time: String,
    pub status: usize,
    pub headers: HeaderMap,
    pub ip_address: Option<String>,
    pub body: BodyValue,
    pub transfer_encoding: Option<String>,
}

/// One assembled transaction record.
pub struct Event {
    pub request: RequestInfo,
    pub response: Option<ResponseInfo>,
    pub user_id: Option<String>,
    pub company_id: Option<String>,
    pub metadata: BodyValue,
    pub direction: String,
    pub session_token: Option<String>,
    pub blocked_by: Option<String>,
}

/// The first token of the list that, trimmed, is a valid IP literal.
pub open spec fn first_valid_ip_token(tokens: Seq<Seq<char>>) -> Option<Seq<char>>
    decreases tokens.len(),
{
    if tokens.len() == 0 {
        Option::<Seq<char>>::None
    } else if is_ip_literal(trim_seq(tokens[0])) {
        Some(trim_seq(tokens[0]))
    } else {
        first_valid_ip_token(tokens.drop_first())
    }
}

/// The client IP one header contributes: its value split on commas, the
/// first token that trims to a valid IP literal.
pub open spec fn ip_from(m: Seq<(Seq<char>, Seq<char>)>, name: Seq<char>) -> Option<Seq<char>> {
    match lookup(m, name) {
        Some(v) => first_valid_ip_token(split_on(v, ',')),
        None => Option::<Seq<char>>::None,
    }
}

/// The derived client IP: the first name of a fixed, ordered list of proxy
/// and CDN headers that yields any valid IP literal wins.
pub open spec fn client_ip_of(m: Seq<(Seq<char>, Seq<char>)>) -> Option<Seq<char>> {
    if ip_from(m, "x-client-ip"@) is Some {
        ip_from(m, "x-client-ip"@)
    } else if ip_from(m, "x-forwarded-for"@) is Some {
        ip_from(m, "x-forwarded-for"@)
    } else if ip_from(m, "cf-connecting-ip"@) is Some {
        ip_from(m, "cf-connecting-ip"@)
    } else if ip_from(m, "fastly-client-ip"@) is Some {
        ip_from(m, "fastly-client-ip"@)
    } else if ip_from(m, "true-client-ip"@) is Some {
        ip_from(m, "true-client-ip"@)
    } else if ip_from(m, "x-real-ip"@) is Some {
        ip_from(m, "x-real-ip"@)
    } else if ip_from(m, "x-cluster-client-ip"@) is Some {
        ip_from(m, "x-cluster-client-ip"@)
    } else if ip_from(m, "x-forwarded"@) is Some {
        ip_from(m, "x-forwarded"@)
    } else if ip_from(m, "forwarded-for"@) is Some {
        ip_from(m, "forwarded-for"@)
    } else if ip_from(m, "forwarded"@) is Some {
        ip_from(m, "forwarded"@)
    } else if ip_from(m, "x-appengine-user-ip"@) is Some {
        ip_from(m, "x-appengine-user-ip"@)
    } else if ip_from(m, "cf-pseudo-ipv4"@) is Some {
        ip_from(m, "cf-pseudo-ipv4"@)
    } else {
        Option::<Seq<char>>::None
    }
}

fn first_valid_token(tokens: &Vec<String>) -> (r: Option<String>)
    ensures
        r matches Some(s) ==> first_valid_ip_token(tokens@.map_values(|t: String| t@)) == Some(s@),
        r is None ==> first_valid_ip_token(tokens@.map_values(|t: String| t@)) is None,
{
    let ghost tv = tokens@.map_values(|t: String| t@);
    let n = tokens.len();
    let mut i: usize = 0;
    proof {
        assert(tv.skip(0) =~= tv);
    }
    while i < n
        invariant
            n == tokens@.len(),
            tv == tokens@.map_values(|t: String| t@),
            i <= n,
            first_valid_ip_token(tv) == first_valid_ip_token(tv.skip(i as int)),
        decreases n - i,
    {
        proof {
            assert(tv.skip(i as int)[0] == tv[i as int]);
            assert(tv[i as int] == tokens@[i as int]@);
            assert(tv.skip(i as int).drop_first() =~= tv.skip(i + 1));
        }
        let t = trim_str(tokens[i].as_str());
        if is_ip_literal_str(t.as_str()) {
            return Some(t);
        }
        i = i + 1;
    }
    proof {
        assert(tv.skip(n as int) =~= Seq::<Seq<char>>::empty());
    }
    None
}

fn ip_from_header(m: &HeaderMap, name: &str) -> (r: Option<String>)
    ensures
        r matches Some(s) ==> ip_from(m@, name@) == Some(s@),
        r is None ==> ip_from(m@, name@) is None,
{
    match m.get(name) {
        Some(v) => {
            let tokens = split_str(v.as_str(), ',');
            first_valid_token(&tokens)
        },
        None => None,
    }
}

/// Scans the fixed, ordered list of proxy and CDN client-IP headers; the
/// first header that yields any valid IP literal wins, and within a header
/// the first valid comma-separated token (trimmed) is taken.
pub fn get_client_ip(m: &HeaderMap) -> (r: Option<String>)
    ensures
        r matches Some(s) ==> client_ip_of(m@) == Some(s@),
        r is None ==> client_ip_of(m@) is None,
{
    let r = ip_from_header(m, "x-client-ip");
    if r.is_some() {
        return r;
    }
    let r = ip_from_header(m, "x-forwarded-for");
    if r.is_some() {
        return r;
    }
    let r = ip_from_header(m, "cf-connecting-ip");
    if r.is_some() {
        return r;
    }
    let r = ip_from_header(m, "fastly-client-ip");
    if r.is_some() {
        return r;
    }
    let r = ip_from_header(m, "true-client-ip");
    if r.is_some() {
        return r;
    }
    let r = ip_from_header(m, "x-real-ip");
    if r.is_some() {
        return r;
    }
    let r = ip_from_header(m, "x-cluster-client-ip");
    if r.is_some() {
        return r;
    }
    let r = ip_from_header(m, "x-forwarded");
    if r.is_some() {
        return r;
    }
    let r = ip_from_header(m, "forwarded-for");
    if r.is_some() {
        return r;
    }
    let r = ip_from_header(m, "forwarded");
    if r.is_some() {
        return r;
    }
    let r = ip_from_header(m, "x-appengine-user-ip");
    if r.is_some() {
        return r;
    }
    let r = ip_from_header(m, "cf-pseudo-ipv4");
    if r.is_some() {
        return r;
    }
    None
}

impl RequestInfo {
    /// A fresh request leg, timestamped now, with every other field empty.
    pub fn new() -> (r: RequestInfo)
        ensures
            r.verb@.len() == 0,
            r.uri@.len() == 0,
            r.headers@ == Seq::<(Seq<char>, Seq<char>)>::empty(),
            r.transfer_encoding is None,
            r.api_version is None,
            r.ip_address is None,
            r.body is Unset,
    {
        RequestInfo {
            time: now_rfc3339(),
            verb: String::new(),
            uri: String::new(),
            headers: HeaderMap::empty(),
            transfer_encoding: None,
            api_version: None,
            ip_address: None,
            body: BodyValue::Unset,
        }
    }

    /// Installs a normalized header map: the verb and URI are taken from the
    /// `:method` and `:path` pseudo-headers when present, pseudo-headers are
    /// then stripped, and the API version and client IP are derived.
    pub fn set_headers(&mut self, headers: HeaderMap)
        ensures
            final(self).headers@ == strip_pseudo(headers@),
            final(self).verb@ == (match lookup(headers@, ":method"@) {
                Some(v) => v,
                None => old(self).verb@,
            }),
            final(self).uri@ == (match lookup(headers@, ":path"@) {
                Some(v) => v,
                None => old(self).uri@,
            }),
            opt_view(final(self).api_version) == lookup(strip_pseudo(headers@), "x-api-version"@),
            opt_view(final(self).ip_address) == client_ip_of(strip_pseudo(headers@)),
            final(self).time == old(self).time,
            final(self).transfer_encoding == old(self).transfer_encoding,
            final(self).body == old(self).body,
    {
        let mut headers = headers;
        if let Some(method) = headers.get(":method") {
            self.verb = method;
        }
        if let Some(path) = headers.get(":path") {
            self.uri = path;
        }
        headers.remove_pseudo();
        self.api_version = headers.get("x-api-version");
        self.ip_address = get_client_ip(&headers);
        self.headers = headers;
    }

    /// Finalizes the request body from the accumulated bytes; an empty
    /// accumulation leaves the body unset.
    pub fn set_body(&mut self, body_bytes: &Vec<u8>)
        requires
            body_bytes@.len() <= 3 * (usize::MAX as int / 4),
        ensures
            body_bytes@.len() > 0 ==> body_matches(
                final(self).body,
                opt_view(final(self).transfer_encoding),
                body_bytes@,
            ),
            body_bytes@.len() == 0 ==> final(self).body == old(self).body
                && final(self).transfer_encoding == old(self).transfer_encoding,
            final(self).time == old(self).time,
            final(self).verb == old(self).verb,
            final(self).uri == old(self).uri,
            final(self).headers == old(self).headers,
            final(self).api_version == old(self).api_version,
            final(self).ip_address == old(self).ip_address,
    {
        if !body_bytes.is_empty() {
            let (body, te) = encode_body(body_bytes);
            self.body = body;
            self.transfer_encoding = te;
        }
    }
}

impl ResponseInfo {
    /// A fresh response leg, timestamped now, with status unset.
    pub fn new() -> (r: ResponseInfo)
        ensures
            r.status == 0,
            r.headers@ == Seq::<(Seq<char>, Seq<char>)>::empty(),
            r.ip_address is None,
            r.body is Unset,
            r.transfer_encoding is None,
    {
        ResponseInfo {
            time: now_rfc3339(),
            status: 0,
            headers: HeaderMap::empty(),
            ip_address: None,
            body: BodyValue::Unset,
            transfer_encoding: None,
        }
    }

    /// Installs a normalized header map: the status is taken from the
    /// `:status` pseudo-header when it parses as a number, and
    /// pseudo-headers are then stripped.
    pub fn set_headers(&mut self, headers: HeaderMap)
        ensures
            final(self).headers@ == strip_pseudo(headers@),
            final(self).status == (match lookup(headers@, ":status"@) {
                Some(v) => if parses_as_usize(v) {
                    usize_val(v) as usize
                } else {
                    old(self).status
                },
                None => old(self).status,
            }),
            final(self).time == old(self).time,
            final(self).ip_address == old(self).ip_address,
            final(self).body == old(self).body,
            final(self).transfer_encoding == old(self).transfer_encoding,
    {
        let mut headers = headers;
        if let Some(status) = headers.get(":status") {
            if let Some(code) = crate::strutil::parse_usize(status.as_str()) {
                self.status = code;
            }
        }
        headers.remove_pseudo();
        self.headers = headers;
    }

    /// Finalizes the response body from the accumulated bytes; an empty
    /// accumulation leaves the body unset.
    pub fn set_body(&mut self, body_bytes: &Vec<u8>)
        requires
            body_bytes@.len() <= 3 * (usize::MAX as int / 4),
        ensures
            body_bytes@.len() > 0 ==> body_matches(
                final(self).body,
                opt_view(final(self).transfer_encoding),
                body_bytes@,
            ),
            body_bytes@.len() == 0 ==> final(self).body == old(self).body
                && final(self).transfer_encoding == old(self).transfer_encoding,
            final(self).time == old(self).time,
            final(self).status == old(self).status,
            final(self).headers == old(self).headers,
            final(self).ip_address == old(self).ip_address,
    {
        if !body_bytes.is_empty() {
            let (body, te) = encode_body(body_bytes);
            self.body = body;
            self.transfer_encoding = te;
        }
    }
}

impl Event {
    /// A fresh record for one inbound stream: a new request leg, no
    /// response, direction marked incoming.
    pub fn new() -> (r: Event)
        ensures
            r.response is None,
            r.user_id is None,
            r.company_id is None,
            r.metadata is Unset,
            r.direction@ == "Incoming"@,
            r.session_token is None,
            r.blocked_by is None,
            r.request.verb@.len() == 0,
            r.request.uri@.len() == 0,
            r.request.headers@ == Seq::<(Seq<char>, Seq<char>)>::empty(),
            r.request.body is Unset,
            r.request.transfer_encoding is None,
    {
        Event {
            request: RequestInfo::new(),
            response: None,
            user_id: None,
            company_id: None,
            metadata: BodyValue::Unset,
            direction: String::from_str("Incoming"),
            session_token: None,
            blocked_by: None,
        }
    }

    /// Resolves the identity fields after stream close: each configured
    /// header name (already lower-cased) is looked up in the request header
    /// map, and a found value is installed; nothing else changes.
    pub fn set_user_and_company_ids(&mut self, config: &Config)
        ensures
            (match config.env.user_id_header {
                Some(h) => (match lookup(old(self).request.headers@, h@) {
                    Some(v) => final(self).user_id matches Some(s) && s@ == v,
                    None => final(self).user_id == old(self).user_id,
                }),
                None => final(self).user_id == old(self).user_id,
            }),
            (match config.env.company_id_header {
                Some(h) => (match lookup(old(self).request.headers@, h@) {
                    Some(v) => final(self).company_id matches Some(s) && s@ == v,
                    None => final(self).company_id == old(self).company_id,
                }),
                None => final(self).company_id == old(self).company_id,
            }),
            final(self).request == old(self).request,
            final(self).response == old(self).response,
            final(self).metadata == old(self).metadata,
            final(self).direction == old(self).direction,
            final(self).session_token == old(self).session_token,
            final(self).blocked_by == old(self).blocked_by,
    {
        if let Some(user_id_header) = &config.env.user_id_header {
            if let Some(user_id) = self.request.headers.get(user_id_header.as_str()) {
                self.user_id = Some(user_id);
            }
        }
        if let Some(company_id_header) = &config.env.company_id_header {
            if let Some(company_id) = self.request.headers.get(company_id_header.as_str()) {
                self.company_id = Some(company_id);
            }
        }
    }
}

} // verus!
