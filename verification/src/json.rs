//! JSON-RPC 2.0 request framing.
//!
//! A request is a JSON object `{"method": .., "params": .., "id": 1,
//! "jsonrpc": "2.0"}` with a fixed id. The envelope is built directly as
//! text, with JSON string escaping, so the exact bytes put on the wire are
//! pinned down by the specification. When the caller supplies no parameters
//! the envelope carries an empty array, since some nodes reject a request
//! without a `params` member.

use vstd::prelude::*;
use vstd::string::StringExecFns;
use vstd::string::StrSliceExecFns;
use crate::codec::digit_char;

verus! {

/// How one character appears inside a JSON string literal: double quote,
/// backslash and control characters are escaped, everything else stands
/// as itself.
pub open spec fn escaped_char(c: char) -> Seq<char> {
    if c == '"' { seq!['\\', '"'] }
    else if c == '\\' { seq!['\\', '\\'] }
    else if c == '\n' { seq!['\\', 'n'] }
    else if c == '\r' { seq!['\\', 'r'] }
    else if c == '\t' { seq!['\\', 't'] }
    else if c == '\u{8}' { seq!['\\', 'b'] }
    else if c == '\u{c}' { seq!['\\', 'f'] }
    else if (c as int) < 0x20 {
        seq!['\\', 'u', '0', '0', digit_char(c as int / 16), digit_char(c as int % 16)]
    } else { seq![c] }
}

/// The body of a JSON string literal holding `s`.
pub open spec fn escaped(s: Seq<char>) -> Seq<char>
    decreases s.len(),
{
    if s.len() == 0 { Seq::empty() } else { escaped(s.drop_last()) + escaped_char(s.last()) }
}

/// A JSON string literal holding `s`, quotes included.
pub open spec fn json_string(s: Seq<char>) -> Seq<char> {
    seq!['"'] + escaped(s) + seq!['"']
}

/// The JSON-RPC 2.0 envelope around a method name and a params value.
pub open spec fn envelope(method: Seq<char>, params: Seq<char>) -> Seq<char> {
    "{\"method\":"@ + json_string(method) + ",\"params\":"@ + params
        + ",\"id\":1,\"jsonrpc\":\"2.0\"}"@
}

/// Escapes `s` for inclusion in a JSON string literal.
pub fn json_escape(s: &str) -> (r: String)
    ensures
        r@ == escaped(s@),
{
    let len = s.unicode_len();
    let mut r = String::new();
    let mut i: usize = 0;
    while i < len
        invariant
            i <= len,
            len == s@.len(),
            r@ == escaped(s@.subrange(0, i as int)),
        decreases len - i,
    {
        let c = s.get_char(i);
        if c == '"' {
            proof { reveal_strlit("\\\""); }
            r.append("\\\"");
        } else if c == '\\' {
            proof { reveal_strlit("\\\\"); }
            r.append("\\\\");
        } else if c == '\n' {
            proof { reveal_strlit("\\n"); }
            r.append("\\n");
        } else if c == '\r' {
            proof { reveal_strlit("\\r"); }
            r.append("\\r");
        } else if c == '\t' {
            proof { reveal_strlit("\\t"); }
            r.append("\\t");
        } else if c == '\u{8}' {
            proof { reveal_strlit("\\b"); }
            r.append("\\b");
        } else if c == '\u{c}' {
            proof { reveal_strlit("\\f"); }
            r.append("\\f");
        } else if (c as u32) < 0x20 {
            proof { reveal_strlit("\\u00"); }
            r.append("\\u00");
            let v = c as u32;
            let hi = crate::codec::digit_str((v / 16) as u64);
            r.append(hi);
            let lo = crate::codec::digit_str((v % 16) as u64);
            r.append(lo);
        } else {
            let one = s.substring_char(i, i + 1);
            r.append(one);
            proof {
                assert(one@ =~= seq![s@[i as int]]);
            }
        }
        proof {
            let pre = s@.subrange(0, i as int);
            let ext = s@.subrange(0, i + 1 as int);
            assert(ext.drop_last() =~= pre);
            assert(ext.last() == s@[i as int]);
            assert(r@ =~= escaped(ext));
        }
        i += 1;
    }
    proof {
        assert(s@.subrange(0, len as int) =~= s@);
    }
    r
}

/// Appends a JSON string literal holding `s`, quotes included.
pub(crate) fn append_json_string(r: &mut String, s: &str)
    ensures
        final(r)@ == old(r)@ + json_string(s@),
{
    proof {
        reveal_strlit("\"");
    }
    r.append("\"");
    let e = json_escape(s);
    r.append(e.as_str());
    r.append("\"");
    proof {
        assert(r@ =~= old(r)@ + json_string(s@));
    }
}

/// Builds the JSON-RPC 2.0 request body for `method`. `params` is the JSON
/// text of the parameter value; a caller with no parameters gets the empty
/// array that the protocol facade always sends.
pub fn build_request(method: &str, params: Option<&str>) -> (r: String)
    ensures
        r@ == envelope(
            method@,
            (match params {
                Option::Some(p) => p@,
                Option::None => "[]"@,
            }),
        ),
{
    let mut r = String::from_str("{\"method\":\"");
    proof {
        reveal_strlit("{\"method\":");
        reveal_strlit("{\"method\":\"");
        reveal_strlit("\"");
    }
    let em = json_escape(method);
    r.append(em.as_str());
    proof {
        reveal_strlit("\",\"params\":");
        reveal_strlit(",\"params\":");
    }
    r.append("\",\"params\":");
    match params {
        Some(p) => {
            r.append(p);
        },
        None => {
            proof { reveal_strlit("[]"); }
            r.append("[]");
        },
    }
    proof {
        reveal_strlit(",\"id\":1,\"jsonrpc\":\"2.0\"}");
    }
    r.append(",\"id\":1,\"jsonrpc\":\"2.0\"}");
    proof {
        assert(r@ =~= envelope(
            method@,
            (match params {
                Option::Some(p) => p@,
                Option::None => "[]"@,
            }),
        ));
    }
    r
}

} // verus!
