//! The first request of a connection: its request line, its headers, the
//! route it names and what becomes of the connection.
use vstd::prelude::*;
use vstd::utf8::encode_utf8;
use crate::auth::{extract_token_from_query, is_authorized, query_token, token_matches};
use crate::text::{chars_of, has_at, is_space, space, starts_at, string_of};

verus! {

/// The first index in `[i, e)` whose character is `c`, or `e`.
pub open spec fn find(s: Seq<char>, e: int, i: int, c: char) -> int
    decreases e - i,
{
    if 0 <= i < e && s[i] != c {
        find(s, e, i + 1, c)
    } else {
        i
    }
}

/// The first index in `[i, e)` whose whitespace-ness differs from `sp`, or `e`.
pub open spec fn scan(s: Seq<char>, e: int, i: int, sp: bool) -> int
    decreases e - i,
{
    if 0 <= i < e && is_space(s[i]) == sp {
        scan(s, e, i + 1, sp)
    } else {
        i
    }
}

/// Where the second whitespace-separated word of the first line starts.
pub open spec fn uri_start(s: Seq<char>) -> int {
    let e = find(s, s.len() as int, 0, '\n');
    scan(s, e, scan(s, e, scan(s, e, 0, true), false), true)
}

/// Where that word ends.
pub open spec fn uri_end(s: Seq<char>) -> int {
    scan(s, find(s, s.len() as int, 0, '\n'), uri_start(s), false)
}

/// The target of the request line: its second word, or `/` when it has none.
pub open spec fn request_uri(s: Seq<char>) -> Seq<char> {
    if uri_start(s) < uri_end(s) {
        s.subrange(uri_start(s), uri_end(s))
    } else {
        "/"@
    }
}

/// The part of a target before the first `?`.
pub open spec fn path_of(u: Seq<char>) -> Seq<char> {
    u.subrange(0, find(u, u.len() as int, 0, '?'))
}

pub(crate) fn find_char(cs: &Vec<char>, e: usize, i: usize, c: char) -> (r: usize)
    requires
        i <= e <= cs.len(),
    ensures
        r == find(cs@, e as int, i as int, c),
        i <= r <= e,
{
    let mut j = i;
    while j < e && cs[j] != c
        invariant
            i <= j <= e <= cs.len(),
            find(cs@, e as int, j as int, c) == find(cs@, e as int, i as int, c),
        decreases e - j,
    {
        j = j + 1;
    }
    j
}

fn scan_chars(cs: &Vec<char>, e: usize, i: usize, sp: bool) -> (r: usize)
    requires
        i <= e <= cs.len(),
    ensures
        r == scan(cs@, e as int, i as int, sp),
        i <= r <= e,
{
    let mut j = i;
    while j < e && space(cs[j]) == sp
        invariant
            i <= j <= e <= cs.len(),
            scan(cs@, e as int, j as int, sp) == scan(cs@, e as int, i as int, sp),
        decreases e - j,
    {
        j = j + 1;
    }
    j
}

/// Splits the request line of a raw request into its target and the
/// target's path; both are `/` when the line has no second word.
pub fn parse_request_uri(request_str: &str) -> (r: (String, String))
    ensures
        r.0@ == request_uri(request_str@),
        r.1@ == path_of(request_uri(request_str@)),
{
    let cs = chars_of(request_str);
    let e = find_char(&cs, cs.len(), 0, '\n');
    let a = scan_chars(&cs, e, 0, true);
    let b = scan_chars(&cs, e, a, false);
    let c = scan_chars(&cs, e, b, true);
    let d = scan_chars(&cs, e, c, false);
    let uri = if c < d {
        string_of(&cs, c, d)
    } else {
        "/".to_owned()
    };
    let us = chars_of(uri.as_str());
    let q = find_char(&us, us.len(), 0, '?');
    let path = string_of(&us, 0, q);
    (uri, path)
}

/// The handler that a request path names.
#[derive(Debug)]
pub enum RouteMatch {
    /// `/ws`: the registry stream.
    Registry,
    /// `/ws/agent/{id}`: a relay to agent `id`.
    AgentProxy(String),
    /// Any other path.
    NotFound,
    /// A request that names a handler but cannot be served.
    BadRequest(String),
}

impl PartialEq for RouteMatch {
    fn eq(&self, other: &RouteMatch) -> (r: bool) {
        match (self, other) {
            (RouteMatch::Registry, RouteMatch::Registry) => true,
            (RouteMatch::AgentProxy(a), RouteMatch::AgentProxy(b)) => *a == *b,
            (RouteMatch::NotFound, RouteMatch::NotFound) => true,
            (RouteMatch::BadRequest(a), RouteMatch::BadRequest(b)) => *a == *b,
            _ => false,
        }
    }
}

impl vstd::std_specs::cmp::PartialEqSpecImpl for RouteMatch {
    open spec fn obeys_eq_spec() -> bool {
        true
    }

    open spec fn eq_spec(&self, other: &RouteMatch) -> bool {
        match (self, other) {
            (RouteMatch::Registry, RouteMatch::Registry) => true,
            (RouteMatch::AgentProxy(a), RouteMatch::AgentProxy(b)) => a@ == b@,
            (RouteMatch::NotFound, RouteMatch::NotFound) => true,
            (RouteMatch::BadRequest(a), RouteMatch::BadRequest(b)) => a@ == b@,
            _ => false,
        }
    }
}

/// `r` is the route of path `p`: `/ws` is the registry; `/ws/agent/` followed
/// by a non-empty id is a relay to that id, and with an empty id a bad
/// request; every other path is not found.
pub open spec fn routes_to(p: Seq<char>, r: RouteMatch) -> bool {
    if p == "/ws"@ {
        r is Registry
    } else if has_at(p, 0, "/ws/agent/"@) {
        if p.len() == 10 {
            r matches RouteMatch::BadRequest(m) && m@ == "Missing node ID"@
        } else {
            r matches RouteMatch::AgentProxy(id) && id@ == p.subrange(10, p.len() as int)
        }
    } else {
        r is NotFound
    }
}

/// Maps a request path to its handler.
pub fn match_route(path: &str) -> (r: RouteMatch)
    ensures
        routes_to(path@, r),
{
    proof {
        reveal_strlit("/ws");
        reveal_strlit("/ws/agent/");
    }
    let cs = chars_of(path);
    let registry = chars_of("/ws");
    let prefix = chars_of("/ws/agent/");
    if cs.len() == 3 && starts_at(&cs, 0, &registry) {
        assert(cs@ =~= cs@.subrange(0, 3));
        RouteMatch::Registry
    } else if starts_at(&cs, 0, &prefix) {
        assert(path@ != "/ws"@) by {
            assert(path@.len() >= 10);
        }
        if cs.len() == 10 {
            RouteMatch::BadRequest("Missing node ID".to_owned())
        } else {
            RouteMatch::AgentProxy(string_of(&cs, 10, cs.len()))
        }
    } else {
        proof {
            if path@ == "/ws"@ {
                assert(cs@.subrange(0, 3) =~= registry@);
            }
        }
        RouteMatch::NotFound
    }
}

/// What becomes of a new connection.
#[derive(Debug)]
pub enum Verdict {
    /// The secret is set and the request does not carry it.
    Unauthorized,
    /// The request goes to this route.
    Route(RouteMatch),
}

/// Whether target `uri` carries the secret: always when the secret is
/// empty, else when its query token decodes to the secret.
pub open spec fn carries_secret(uri: Seq<char>, secret: Seq<char>) -> bool {
    secret.len() == 0 || match query_token(uri) {
        Some(t) => token_matches(encode_utf8(t), secret),
        None => false,
    }
}

/// Classifies the first request of a connection: authentication comes
/// first, then the route of the path.
pub fn classify_connection(request_str: &str, secret: &str) -> (r: Verdict)
    ensures
        !carries_secret(request_uri(request_str@), secret@) ==> r is Unauthorized,
        carries_secret(request_uri(request_str@), secret@) ==> (r matches Verdict::Route(m)
            && routes_to(path_of(request_uri(request_str@)), m)),
{
    let (uri, path) = parse_request_uri(request_str);
    let token = extract_token_from_query(uri.as_str());
    let ok = match &token {
        Some(t) => is_authorized(Some(t.as_str()), secret),
        None => is_authorized(None, secret),
    };
    if !ok {
        return Verdict::Unauthorized;
    }
    Verdict::Route(match_route(path.as_str()))
}

/// The HTTP response that closes a connection that is not upgraded, if any.
pub fn rejection_response(v: &Verdict) -> (r: Option<String>)
    ensures
        v is Unauthorized ==> (r matches Some(s)
            && s@ == "HTTP/1.1 401 Unauthorized\r\nContent-Length: 12\r\n\r\nUnauthorized"@),
        v matches Verdict::Route(RouteMatch::BadRequest(_)) ==> (r matches Some(s)
            && s@ == "HTTP/1.1 400 Bad Request\r\nContent-Length: 15\r\n\r\nMissing node ID"@),
        v matches Verdict::Route(RouteMatch::NotFound) ==> (r matches Some(s)
            && s@ == "HTTP/1.1 404 Not Found\r\nContent-Length: 9\r\n\r\nNot Found"@),
        v matches Verdict::Route(RouteMatch::Registry) ==> r is None,
        v matches Verdict::Route(RouteMatch::AgentProxy(_)) ==> r is None,
{
    match v {
        Verdict::Unauthorized => Some(
            "HTTP/1.1 401 Unauthorized\r\nContent-Length: 12\r\n\r\nUnauthorized".to_owned(),
        ),
        Verdict::Route(RouteMatch::BadRequest(_)) => Some(
            "HTTP/1.1 400 Bad Request\r\nContent-Length: 15\r\n\r\nMissing node ID".to_owned(),
        ),
        Verdict::Route(RouteMatch::NotFound) => Some(
            "HTTP/1.1 404 Not Found\r\nContent-Length: 9\r\n\r\nNot Found".to_owned(),
        ),
        Verdict::Route(_) => None,
    }
}

/// `c` with ASCII upper case folded to lower case, as a code point.
pub open spec fn fold(c: char) -> u32 {
    if 'A' <= c && c <= 'Z' {
        (c as u32 + 32) as u32
    } else {
        c as u32
    }
}

/// Equality up to ASCII case.
pub open spec fn same_ignoring_case(a: Seq<char>, b: Seq<char>) -> bool {
    a.len() == b.len() && forall|k: int| 0 <= k < a.len() ==> fold(#[trigger] a[k]) == fold(b[k])
}

/// The last index in `[lo, j)` after which only whitespace follows, scanning back.
pub open spec fn back(s: Seq<char>, lo: int, j: int) -> int
    decreases j - lo,
{
    if lo < j && j <= s.len() && is_space(s[j - 1]) {
        back(s, lo, j - 1)
    } else {
        j
    }
}

/// `s[lo..hi]` without leading and trailing whitespace.
pub open spec fn trimmed(s: Seq<char>, lo: int, hi: int) -> Seq<char> {
    let a = scan(s, hi, lo, true);
    s.subrange(a, back(s, a, hi))
}

/// The value of the first header named `name` (any ASCII case) among the
/// lines that start at `i`, up to the first blank line.
pub open spec fn header_from(s: Seq<char>, i: int, name: Seq<char>) -> Option<Seq<char>>
    decreases s.len() - i,
{
    if 0 <= i < s.len() {
        let e = find(s, s.len() as int, i, '\n');
        let c = find(s, e, i, ':');
        if e == i || (e == i + 1 && s[i] == '\r') {
            None
        } else if c < e && same_ignoring_case(trimmed(s, i, c), name) {
            Some(trimmed(s, c + 1, e))
        } else if i <= e < s.len() {
            header_from(s, e + 1, name)
        } else {
            None
        }
    } else {
        None
    }
}

/// The value of header `name` in a raw request: header lines follow the
/// request line and end at the first blank line.
pub open spec fn header_of(s: Seq<char>, name: Seq<char>) -> Option<Seq<char>> {
    let e = find(s, s.len() as int, 0, '\n');
    if e < s.len() {
        header_from(s, e + 1, name)
    } else {
        None
    }
}

fn fold_char(c: char) -> (r: u32)
    ensures
        r == fold(c),
{
    if 'A' <= c && c <= 'Z' {
        c as u32 + 32
    } else {
        c as u32
    }
}

fn back_chars(cs: &Vec<char>, lo: usize, hi: usize) -> (r: usize)
    requires
        lo <= hi <= cs.len(),
    ensures
        r == back(cs@, lo as int, hi as int),
        lo <= r <= hi,
{
    let mut j = hi;
    while lo < j && space(cs[j - 1])
        invariant
            lo <= j <= hi <= cs.len(),
            back(cs@, lo as int, j as int) == back(cs@, lo as int, hi as int),
        decreases j - lo,
    {
        j = j - 1;
    }
    j
}

fn trim_range(cs: &Vec<char>, lo: usize, hi: usize) -> (r: (usize, usize))
    requires
        lo <= hi <= cs.len(),
    ensures
        r.0 <= r.1 <= cs.len(),
        cs@.subrange(r.0 as int, r.1 as int) == trimmed(cs@, lo as int, hi as int),
{
    let a = scan_chars(cs, hi, lo, true);
    let b = back_chars(cs, a, hi);
    (a, b)
}

fn same_range_ignoring_case(cs: &Vec<char>, lo: usize, hi: usize, name: &Vec<char>) -> (r: bool)
    requires
        lo <= hi <= cs.len(),
    ensures
        r == same_ignoring_case(cs@.subrange(lo as int, hi as int), name@),
{
    if hi - lo != name.len() {
        return false;
    }
    let mut k: usize = 0;
    while k < name.len()
        invariant
            lo <= hi <= cs.len(),
            hi - lo == name.len(),
            k <= name.len(),
            forall|j: int| 0 <= j < k ==> fold(#[trigger] cs@.subrange(lo as int, hi as int)[j]) == fold(name@[j]),
        decreases name.len() - k,
    {
        if fold_char(cs[lo + k]) != fold_char(name[k]) {
            assert(fold(cs@.subrange(lo as int, hi as int)[k as int]) != fold(name@[k as int]));
            return false;
        }
        k = k + 1;
    }
    true
}

/// The value of header `name` in a raw request, matched in any ASCII case
/// and trimmed of whitespace.
pub fn header_value(request: &str, name: &str) -> (r: Option<String>)
    ensures
        match r {
            Some(v) => header_of(request@, name@) == Some(v@),
            None => header_of(request@, name@) is None,
        },
{
    let cs = chars_of(request);
    let key = chars_of(name);
    let first = find_char(&cs, cs.len(), 0, '\n');
    if first == cs.len() {
        return None;
    }
    let mut i = first + 1;
    while i < cs.len()
        invariant
            cs@ == request@,
            key@ == name@,
            first < cs.len(),
            first + 1 <= i <= cs.len(),
            header_of(cs@, key@) == header_from(cs@, i as int, key@),
        decreases cs.len() - i,
    {
        let e = find_char(&cs, cs.len(), i, '\n');
        let c = find_char(&cs, e, i, ':');
        if e == i || (e == i + 1 && cs[i] == '\r') {
            return None;
        }
        if c < e {
            let (a, b) = trim_range(&cs, i, c);
            if same_range_ignoring_case(&cs, a, b, &key) {
                let (va, vb) = trim_range(&cs, c + 1, e);
                return Some(string_of(&cs, va, vb));
            }
        }
        if e == cs.len() {
            return None;
        }
        i = e + 1;
    }
    None
}

/// The first word of the request line.
pub open spec fn request_method(s: Seq<char>) -> Seq<char> {
    let e = find(s, s.len() as int, 0, '\n');
    s.subrange(scan(s, e, 0, true), scan(s, e, scan(s, e, 0, true), false))
}

/// Whether `w` occurs in `c`, up to ASCII case.
pub open spec fn mentions_ignoring_case(c: Seq<char>, w: Seq<char>) -> bool {
    exists|i: int|
        0 <= i && i + w.len() <= c.len() && #[trigger] same_ignoring_case(
            c.subrange(i, i + w.len()),
            w,
        )
}

/// Whether a raw request is a WebSocket opening handshake: a `GET` whose
/// headers hold `Upgrade: websocket`, a `Connection` value that mentions
/// `upgrade`, `Sec-WebSocket-Version: 13` and a key (header names and the
/// two words in any ASCII case).
pub open spec fn asks_upgrade(s: Seq<char>) -> bool {
    &&& request_method(s) == "GET"@
    &&& header_of(s, "Sec-WebSocket-Key"@) is Some
    &&& header_of(s, "Upgrade"@) matches Some(u) && same_ignoring_case(u, "websocket"@)
    &&& header_of(s, "Connection"@) matches Some(c) && mentions_ignoring_case(c, "upgrade"@)
    &&& header_of(s, "Sec-WebSocket-Version"@) == Some("13"@)
}

fn is_word(v: &String, w: &str) -> (r: bool)
    ensures
        r == same_ignoring_case(v@, w@),
{
    let vs = chars_of(v.as_str());
    let ws = chars_of(w);
    assert(vs@.subrange(0, vs@.len() as int) =~= vs@);
    same_range_ignoring_case(&vs, 0, vs.len(), &ws)
}

fn mentions_word(v: &String, w: &str) -> (r: bool)
    ensures
        r == mentions_ignoring_case(v@, w@),
{
    let vs = chars_of(v.as_str());
    let ws = chars_of(w);
    let mut i: usize = 0;
    while i <= vs.len() && vs.len() - i >= ws.len()
        invariant
            vs@ == v@,
            ws@ == w@,
            i <= vs.len() + 1,
            forall|j: int|
                0 <= j < i && j + w@.len() <= v@.len() ==> !#[trigger] same_ignoring_case(
                    v@.subrange(j, j + w@.len()),
                    w@,
                ),
        decreases vs.len() + 1 - i,
    {
        if same_range_ignoring_case(&vs, i, i + ws.len(), &ws) {
            return true;
        }
        i = i + 1;
    }
    false
}

/// Whether a raw request is a WebSocket opening handshake.
pub fn is_opening_handshake(request: &str) -> (r: bool)
    ensures
        r == asks_upgrade(request@),
{
    proof {
        reveal_strlit("GET");
        reveal_strlit("13");
    }
    let cs = chars_of(request);
    let e = find_char(&cs, cs.len(), 0, '\n');
    let a = scan_chars(&cs, e, 0, true);
    let b = scan_chars(&cs, e, a, false);
    let get = chars_of("GET");
    if !(b - a == 3 && starts_at(&cs, a, &get)) {
        proof {
            if request_method(request@) == "GET"@ {
                assert(cs@.subrange(a as int, a + 3) =~= get@);
            }
        }
        return false;
    }
    assert(request_method(request@) =~= "GET"@);
    if header_value(request, "Sec-WebSocket-Key").is_none() {
        return false;
    }
    let upgrade_ok = match header_value(request, "Upgrade") {
        Some(u) => is_word(&u, "websocket"),
        None => false,
    };
    let connection_ok = match header_value(request, "Connection") {
        Some(c) => mentions_word(&c, "upgrade"),
        None => false,
    };
    let version_ok = match header_value(request, "Sec-WebSocket-Version") {
        Some(v) => v == "13".to_owned(),
        None => false,
    };
    upgrade_ok && connection_ok && version_ok
}

} // verus!
