//! Request bodies sent to the authentication endpoints, rendered exactly as
//! the API expects them: compact JSON with keys in lexicographic order and
//! strings escaped as serde_json writes them.

use vstd::prelude::*;
use crate::hex::nibble_char;
use crate::hex::nibble_to_char;
use crate::hex::push_char;
use crate::model::Uuid;
use crate::model::uuid_str;

verus! {

/// The escaping of one character inside a JSON string literal: quote and
/// backslash get a backslash, control characters get their short escape or a
/// `\u00` escape, and everything else stands as it is.
pub open spec fn json_escape_char(c: char) -> Seq<char> {
    if c == '"' {
        seq!['\\', '"']
    } else if c == '\\' {
        seq!['\\', '\\']
    } else if c == '\u{8}' {
        seq!['\\', 'b']
    } else if c == '\u{9}' {
        seq!['\\', 't']
    } else if c == '\u{A}' {
        seq!['\\', 'n']
    } else if c == '\u{C}' {
        seq!['\\', 'f']
    } else if c == '\u{D}' {
        seq!['\\', 'r']
    } else if (c as u32) < 32 {
        seq!['\\', 'u', '0', '0', nibble_char(c as u32 as int / 16), nibble_char(
            c as u32 as int % 16,
        )]
    } else {
        seq![c]
    }
}

/// The escaping of a whole string, character by character.
pub open spec fn json_escaped(s: Seq<char>) -> Seq<char>
    decreases s.len(),
{
    if s.len() == 0 {
        Seq::empty()
    } else {
        json_escaped(s.drop_last()) + json_escape_char(s.last())
    }
}

/// A JSON string literal for `s`: quoted and escaped.
pub open spec fn json_string(s: Seq<char>) -> Seq<char> {
    seq!['"'] + json_escaped(s) + seq!['"']
}

/// The escaping of a whole string, built character by character.
fn json_escaped_str(s: &str) -> (r: String)
    ensures
        r@ == json_escaped(s@),
{
    let n = s.unicode_len();
    let mut r = String::new();
    let mut i: usize = 0;
    while i < n
        invariant
            n == s@.len(),
            i <= n,
            r@ == json_escaped(s@.take(i as int)),
        decreases n - i,
    {
        let c = s.get_char(i);
        if c == '"' {
            push_char(&mut r, '\\');
            push_char(&mut r, '"');
        } else if c == '\\' {
            push_char(&mut r, '\\');
            push_char(&mut r, '\\');
        } else if c == '\u{8}' {
            push_char(&mut r, '\\');
            push_char(&mut r, 'b');
        } else if c == '\u{9}' {
            push_char(&mut r, '\\');
            push_char(&mut r, 't');
        } else if c == '\u{A}' {
            push_char(&mut r, '\\');
            push_char(&mut r, 'n');
        } else if c == '\u{C}' {
            push_char(&mut r, '\\');
            push_char(&mut r, 'f');
        } else if c == '\u{D}' {
            push_char(&mut r, '\\');
            push_char(&mut r, 'r');
        } else {
            let u = c as u32;
            if u < 32 {
                push_char(&mut r, '\\');
                push_char(&mut r, 'u');
                push_char(&mut r, '0');
                push_char(&mut r, '0');
                push_char(&mut r, nibble_to_char((u / 16) as u8));
                push_char(&mut r, nibble_to_char((u % 16) as u8));
            } else {
                push_char(&mut r, c);
            }
        }
        proof {
            assert(s@.take(i + 1).drop_last() =~= s@.take(i as int));
            assert(r@ =~= json_escaped(s@.take(i + 1)));
        }
        i += 1;
    }
    proof {
        assert(s@.take(n as int) =~= s@);
    }
    r
}

/// The JSON string literal for `s`, as serde_json renders a string value.
pub fn json_string_str(s: &str) -> (r: String)
    ensures
        r@ == json_string(s@),
{
    let mut r = String::new();
    push_char(&mut r, '"');
    let body = json_escaped_str(s);
    r.append(body.as_str());
    push_char(&mut r, '"');
    proof {
        assert(r@ =~= json_string(s@));
    }
    r
}

/// The body of a client login request for this username and password: the
/// fixed Minecraft agent, the two credentials as JSON strings, and a request
/// for user metadata.
pub open spec fn login_payload_spec(username: Seq<char>, password: Seq<char>) -> Seq<char> {
    ("{\"agent\":{\"name\":\"Minecraft\",\"version\":1},\"password\":")@ + json_string(password)
        + (",\"requestUser\":true,\"username\":")@ + json_string(username) + ("}")@
}

/// Renders the body of a client login request.
pub fn login_payload(username: &str, password: &str) -> (r: String)
    ensures
        r@ == login_payload_spec(username@, password@),
{
    let mut r = String::new();
    r.append("{\"agent\":{\"name\":\"Minecraft\",\"version\":1},\"password\":");
    let p = json_string_str(password);
    r.append(p.as_str());
    r.append(",\"requestUser\":true,\"username\":");
    let u = json_string_str(username);
    r.append(u.as_str());
    r.append("}");
    proof {
        assert(r@ =~= login_payload_spec(username@, password@));
    }
    r
}

/// The body of a client join request for this access token, profile UUID
/// and server hash. The UUID appears in its hyphenated form, whose
/// characters never need escaping.
pub open spec fn join_payload_spec(access_token: Seq<char>, uuid: Uuid, server_hash: Seq<char>) -> Seq<char> {
    ("{\"accessToken\":")@ + json_string(access_token) + (",\"selectedProfile\":\"")@
        + uuid_str(uuid.value as nat) + ("\",\"serverId\":")@ + json_string(server_hash) + ("}")@
}

/// Renders the body of a client join request.
pub fn join_payload(access_token: &str, uuid: Uuid, server_hash: &str) -> (r: String)
    ensures
        r@ == join_payload_spec(access_token@, uuid, server_hash@),
{
    let mut r = String::new();
    r.append("{\"accessToken\":");
    let t = json_string_str(access_token);
    r.append(t.as_str());
    r.append(",\"selectedProfile\":\"");
    let id = uuid.hyphenated();
    r.append(id.as_str());
    r.append("\",\"serverId\":");
    let h = json_string_str(server_hash);
    r.append(h.as_str());
    r.append("}");
    proof {
        assert(r@ =~= join_payload_spec(access_token@, uuid, server_hash@));
    }
    r
}

} // verus!
