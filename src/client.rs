//! Connection configuration: the endpoint URI and the credentials, and the
//! authentication payload sent first on every new session.

use vstd::prelude::*;

verus! {

/// The decimal digit `d` (below ten) as a character.
pub open spec fn digit_char(d: nat) -> char {
    if d == 0 { '0' }
    else if d == 1 { '1' }
    else if d == 2 { '2' }
    else if d == 3 { '3' }
    else if d == 4 { '4' }
    else if d == 5 { '5' }
    else if d == 6 { '6' }
    else if d == 7 { '7' }
    else if d == 8 { '8' }
    else { '9' }
}

/// `n` written in decimal, most significant digit first, with no leading zero.
pub open spec fn decimal(n: nat) -> Seq<char>
    decreases n,
{
    if n < 10 {
        seq![digit_char(n)]
    } else {
        decimal(n / 10) + seq![digit_char(n % 10)]
    }
}

/// The endpoint URI `scheme://host:port`.
pub open spec fn endpoint_uri(scheme: Seq<char>, host: Seq<char>, port: nat) -> Seq<char> {
    scheme + "://"@ + host + ":"@ + decimal(port)
}

/// The credential message `{"username":U,"password":P}`, where `U` and `P`
/// are the two fields already encoded as JSON strings.
pub open spec fn auth_text(username_json: Seq<char>, password_json: Seq<char>) -> Seq<char> {
    "{\"username\":"@ + username_json + ",\"password\":"@ + password_json + "}"@
}

/// A lowercase hexadecimal digit (`d` below sixteen).
pub open spec fn hex_digit(d: nat) -> char {
    if d < 10 { digit_char(d) }
    else if d == 10 { 'a' }
    else if d == 11 { 'b' }
    else if d == 12 { 'c' }
    else if d == 13 { 'd' }
    else if d == 14 { 'e' }
    else { 'f' }
}

/// How one character appears inside a JSON string: the quote and the
/// backslash are escaped, the five control characters with a short escape
/// use it, the other control characters below 0x20 are written `\u00xx`,
/// and every other character stands as it is.
pub open spec fn json_escape_char(c: char) -> Seq<char> {
    if c == '"' { seq!['\\', '"'] }
    else if c == '\\' { seq!['\\', '\\'] }
    else if c == '\x08' { seq!['\\', 'b'] }
    else if c == '\t' { seq!['\\', 't'] }
    else if c == '\n' { seq!['\\', 'n'] }
    else if c == '\x0C' { seq!['\\', 'f'] }
    else if c == '\r' { seq!['\\', 'r'] }
    else if (c as u32) < 0x20 {
        seq!['\\', 'u', '0', '0', hex_digit((c as u32 as nat) / 16), hex_digit((c as u32 as nat) % 16)]
    } else {
        seq![c]
    }
}

/// The characters of a string, each escaped for JSON.
pub open spec fn json_escape(s: Seq<char>) -> Seq<char>
    decreases s.len(),
{
    if s.len() == 0 {
        Seq::empty()
    } else {
        json_escape(s.drop_last()) + json_escape_char(s.last())
    }
}

/// A string as a JSON string literal: quoted, with its characters escaped.
pub open spec fn json_string(s: Seq<char>) -> Seq<char> {
    seq!['"'] + json_escape(s) + seq!['"']
}

/// Relies on serde_json::to_string applied to a `str`: the string quoted,
/// with its characters escaped by serde_json's escape table. On a `str` it
/// cannot fail, since the encoded text is written into a `Vec`, whose writes
/// always succeed.
#[verifier::external_body]
fn encode_json_string(s: &str) -> (r: Option<String>)
    ensures
        r is Some,
        r matches Some(t) ==> t@ == json_string(s@),
{
    serde_json::to_string(s).ok()
}

fn digit_str(d: u16) -> (r: &'static str)
    requires
        d < 10,
    ensures
        r@ == seq![digit_char(d as nat)],
{
    proof {
        reveal_strlit("0");
        reveal_strlit("1");
        reveal_strlit("2");
        reveal_strlit("3");
        reveal_strlit("4");
        reveal_strlit("5");
        reveal_strlit("6");
        reveal_strlit("7");
        reveal_strlit("8");
        reveal_strlit("9");
    }
    if d == 0 { "0" }
    else if d == 1 { "1" }
    else if d == 2 { "2" }
    else if d == 3 { "3" }
    else if d == 4 { "4" }
    else if d == 5 { "5" }
    else if d == 6 { "6" }
    else if d == 7 { "7" }
    else if d == 8 { "8" }
    else { "9" }
}

/// Writes `n` in decimal.
pub fn decimal_text(n: u16) -> (r: String)
    ensures
        r@ == decimal(n as nat),
{
    let mut rest: u16 = n / 10;
    let mut r = String::from_str(digit_str(n % 10));
    while rest > 0
        invariant
            rest as nat <= n as nat,
            rest > 0 ==> decimal(n as nat) == decimal(rest as nat) + r@,
            rest == 0 ==> decimal(n as nat) == r@,
        decreases rest,
    {
        let d = String::from_str(digit_str(rest % 10));
        r = d.concat(r.as_str());
        rest = rest / 10;
    }
    r
}

/// The configuration of a client: the endpoint URI and the credentials.
pub struct MginDBClient {
    pub uri: String,
    pub username: String,
    pub password: String,
}

impl MginDBClient {
    /// A client for `protocol://host:port` with the given credentials; no
    /// network activity happens here.
    pub fn new(protocol: &str, host: &str, port: u16, username: &str, password: &str) -> (r: Self)
        ensures
            r.uri@ == endpoint_uri(protocol@, host@, port as nat),
            r.username@ == username@,
            r.password@ == password@,
    {
        let mut uri = String::from_str(protocol);
        uri.append("://");
        uri.append(host);
        uri.append(":");
        let digits = decimal_text(port);
        uri.append(digits.as_str());
        MginDBClient {
            uri,
            username: String::from_str(username),
            password: String::from_str(password),
        }
    }

    /// The credential message for this client: a JSON object holding the
    /// username and the password.
    pub fn auth_payload(&self) -> (r: String)
        ensures
            r@ == auth_text(json_string(self.username@), json_string(self.password@)),
    {
        let u = encode_json_string(self.username.as_str()).unwrap();
        let p = encode_json_string(self.password.as_str()).unwrap();
        auth_payload_from_encoded(u.as_str(), p.as_str())
    }
}

/// The credential message built from the two credentials already encoded as
/// JSON strings.
pub fn auth_payload_from_encoded(username_json: &str, password_json: &str) -> (r: String)
    ensures
        r@ == auth_text(username_json@, password_json@),
{
    let mut r = String::from_str("{\"username\":");
    r.append(username_json);
    r.append(",\"password\":");
    r.append(password_json);
    r.append("}");
    r
}

} // verus!
