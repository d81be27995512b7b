//! The WebSocket upgrade: the server's answer to a dashboard and the
//! client request toward an agent.
use vstd::prelude::*;
use vstd::string::StringSliceAdditionalSpecFns;
use vstd::utf8::encode_utf8;
use crate::http::{
    asks_upgrade, find, find_char, header_of, header_value, is_opening_handshake,
};
use crate::text::{chars_of, has_at, push_char, push_str, string_of};

verus! {

/// The base64 alphabet.
pub open spec fn alphabet() -> Seq<char> {
    "ABCDEFGHIJKLMNOPQRSTUVWXYZabcdefghijklmnopqrstuvwxyz0123456789+/"@
}

/// The base64 digit of a six-bit value.
pub open spec fn digit(v: int) -> char {
    alphabet()[v]
}

/// Standard base64 with `=` padding, three bytes to four digits.
pub open spec fn base64(b: Seq<u8>) -> Seq<char>
    decreases b.len(),
{
    let x0 = b[0] as int;
    let x1 = if b.len() > 1 { b[1] as int } else { 0 };
    let x2 = if b.len() > 2 { b[2] as int } else { 0 };
    if b.len() == 0 {
        Seq::empty()
    } else if b.len() == 1 {
        seq![digit(x0 / 4), digit((x0 % 4) * 16), '=', '=']
    } else if b.len() == 2 {
        seq![digit(x0 / 4), digit((x0 % 4) * 16 + x1 / 16), digit((x1 % 16) * 4), '=']
    } else {
        seq![digit(x0 / 4), digit((x0 % 4) * 16 + x1 / 16), digit((x1 % 16) * 4 + x2 / 64), digit(x2 % 64)]
            + base64(b.subrange(3, b.len() as int))
    }
}

fn digit_of(alpha: &Vec<char>, v: u8) -> (c: char)
    requires
        alpha@ == alphabet(),
        alpha@.len() == 64,
        v < 64,
    ensures
        c == digit(v as int),
{
    alpha[v as usize]
}

/// Base64 of sixteen bytes: twenty-four characters, the last two `=`.
pub fn base64_encode_16(bytes: &[u8; 16]) -> (r: String)
    ensures
        r@ == base64(bytes@),
        r@.len() == 24,
{
    let alpha = chars_of("ABCDEFGHIJKLMNOPQRSTUVWXYZabcdefghijklmnopqrstuvwxyz0123456789+/");
    proof {
        reveal_strlit("ABCDEFGHIJKLMNOPQRSTUVWXYZabcdefghijklmnopqrstuvwxyz0123456789+/");
    }
    let ghost b = bytes@;
    assert(alpha@.len() == 64);
    assert(b.subrange(0, 16) =~= b);
    let mut result = String::new();
    let mut i: usize = 0;
    while i + 3 <= 16
        invariant
            b == bytes@,
            b.len() == 16,
            alpha@ == alphabet(),
            alpha@.len() == 64,
            i <= 15,
            i % 3 == 0,
            result@ + base64(b.subrange(i as int, 16)) == base64(b),
            result@.len() == (i / 3) * 4,
        decreases 16 - i,
    {
        let b0 = bytes[i];
        let b1 = bytes[i + 1];
        let b2 = bytes[i + 2];
        let ghost rest = b.subrange(i as int, 16);
        assert(rest.subrange(3, rest.len() as int) =~= b.subrange(i + 3, 16));
        let ghost r0 = result@;
        push_char(&mut result, digit_of(&alpha, b0 / 4));
        push_char(&mut result, digit_of(&alpha, (b0 % 4) * 16 + b1 / 16));
        push_char(&mut result, digit_of(&alpha, (b1 % 16) * 4 + b2 / 64));
        push_char(&mut result, digit_of(&alpha, b2 % 64));
        assert(result@ + base64(b.subrange(i + 3, 16)) =~= r0 + base64(rest));
        i = i + 3;
    }
    let b0 = bytes[15];
    let ghost r0 = result@;
    push_char(&mut result, digit_of(&alpha, b0 / 4));
    push_char(&mut result, digit_of(&alpha, (b0 % 4) * 16));
    push_char(&mut result, '=');
    push_char(&mut result, '=');
    assert(b.subrange(15, 16) =~= seq![b[15]]);
    assert(result@ =~= r0 + base64(b.subrange(15, 16)));
    result
}

/// Relies on `getrandom::getrandom`: fills the buffer from the operating
/// system's random source, or reports an error; it does not panic. Nothing
/// is known of the bytes.
#[verifier::external_body]
fn random_bytes(buf: &mut [u8; 16]) -> (ok: bool) {
    getrandom::getrandom(buf).is_ok()
}

/// A fresh handshake key: base64 of sixteen random bytes (all zero in the
/// rare case that the random source fails, which the agent accepts alike).
pub fn base64_ws_key() -> (r: String)
    ensures
        exists|b: Seq<u8>| b.len() == 16 && r@ == base64(b),
        r@.len() == 24,
{
    let mut b = [0u8; 16];
    if !random_bytes(&mut b) {
        b = [0u8; 16];
    }
    base64_encode_16(&b)
}

/// The upgrade request sent to an agent's own server.
pub fn build_agent_handshake_request(agent_addr: &str, ws_key: &str) -> (r: String)
    ensures
        r@ == "GET / HTTP/1.1\r\nHost: "@ + agent_addr@
            + "\r\nUpgrade: websocket\r\nConnection: Upgrade\r\nSec-WebSocket-Key: "@ + ws_key@
            + "\r\nSec-WebSocket-Version: 13\r\n\r\n"@,
{
    let mut r = "GET / HTTP/1.1\r\nHost: ".to_owned();
    push_str(&mut r, agent_addr);
    push_str(&mut r, "\r\nUpgrade: websocket\r\nConnection: Upgrade\r\nSec-WebSocket-Key: ");
    push_str(&mut r, ws_key);
    push_str(&mut r, "\r\nSec-WebSocket-Version: 13\r\n\r\n");
    r
}

/// The status line of a response: the text before its first line break.
pub open spec fn status_line(s: Seq<char>) -> Seq<char> {
    s.subrange(0, find(s, s.len() as int, 0, '\n'))
}

/// Whether `s` holds `101` somewhere.
pub open spec fn mentions_101(s: Seq<char>) -> bool {
    exists|i: int| #[trigger] has_at(s, i, "101"@)
}

/// An agent's upgrade response is accepted when its status line holds `101`.
pub fn validate_agent_handshake(response: &str) -> (r: bool)
    ensures
        r == mentions_101(status_line(response@)),
{
    let all = chars_of(response);
    let e = find_char(&all, all.len(), 0, '\n');
    let cs = string_of(&all, 0, e);
    let cs = chars_of(cs.as_str());
    let code = chars_of("101");
    proof {
        reveal_strlit("101");
    }
    let ghost line = status_line(response@);
    assert(cs@ == line);
    let mut i: usize = 0;
    while i <= cs.len() && cs.len() - i >= 3
        invariant
            code@ == "101"@,
            cs@ == line,
            line == status_line(response@),
            i <= cs.len(),
            forall|j: int| 0 <= j < i ==> !has_at(cs@, j, "101"@),
        decreases cs.len() - i,
    {
        if crate::text::starts_at(&cs, i, &code) {
            assert(has_at(line, i as int, "101"@));
            assert(mentions_101(status_line(response@)));
            return true;
        }
        i = i + 1;
    }
    assert forall|j: int| !has_at(line, j, "101"@) by {
        if 0 <= j < i {
        } else {
            assert(!(0 <= j && j + 3 <= cs@.len()));
        }
    }
    false
}

/// The `Sec-WebSocket-Accept` value that answers a client key.
pub uninterp spec fn accept_key_of(key: Seq<u8>) -> Seq<char>;

/// Relies on `tungstenite::handshake::derive_accept_key`: base64 of the
/// SHA-1 digest of the key followed by the protocol's GUID; the result
/// depends on the key alone.
#[verifier::external_body]
fn derive_accept(key: &str) -> (r: String)
    ensures
        r@ == accept_key_of(key.spec_bytes()),
{
    tungstenite::handshake::derive_accept_key(key.as_bytes())
}

/// The `101 Switching Protocols` response that carries `accept`.
pub fn switching_protocols(accept: &str) -> (r: String)
    ensures
        r@ == "HTTP/1.1 101 Switching Protocols\r\nUpgrade: websocket\r\nConnection: Upgrade\r\nSec-WebSocket-Accept: "@
            + accept@ + "\r\n\r\n"@,
{
    let mut r = "HTTP/1.1 101 Switching Protocols\r\nUpgrade: websocket\r\nConnection: Upgrade\r\nSec-WebSocket-Accept: ".to_owned();
    push_str(&mut r, accept);
    push_str(&mut r, "\r\n\r\n");
    r
}

/// The server's answer to an upgrade request; `None` when the request is
/// not one, which the caller answers with `400 Bad Request`.
pub fn accept_response(request: &str) -> (r: Option<String>)
    ensures
        !asks_upgrade(request@) ==> r is None,
        asks_upgrade(request@) ==> (r matches Some(s) && header_of(request@, "Sec-WebSocket-Key"@)
            matches Some(k) && s@ == "HTTP/1.1 101 Switching Protocols\r\nUpgrade: websocket\r\nConnection: Upgrade\r\nSec-WebSocket-Accept: "@
            + accept_key_of(encode_utf8(k)) + "\r\n\r\n"@),
{
    if !is_opening_handshake(request) {
        return None;
    }
    match header_value(request, "Sec-WebSocket-Key") {
        Some(k) => {
            let accept = derive_accept(k.as_str());
            Some(switching_protocols(accept.as_str()))
        },
        None => None,
    }
}

} // verus!
