//! Building the JSON request body sent to the completion service.

use vstd::prelude::*;
use crate::digits::{dec_digits, u64_dec_chars};
use crate::msg::{Message, MsgView, msg_views, role_name, role_str};
use crate::text::chars_string;

verus! {

/// The largest positive value of a signed 64-bit integer: the remote
/// protocol rejects seeds above it, so transmitted seeds are reduced
/// modulo this bound.
pub open spec fn seed_bound() -> int {
    9223372036854775807
}

/// The seed value actually transmitted for a caller seed `seed`.
pub open spec fn seed_mod(seed: u64) -> u64 {
    (seed as int % seed_bound()) as u64
}

/// Reduces a seed below the remote protocol's signed 64-bit bound.
///
/// Law: for every seed at or above the bound, the transmitted seed
/// equals the seed modulo the bound (and smaller seeds pass unchanged).
pub fn bound_seed(seed: u64) -> (r: u64)
    ensures
        r == seed_mod(seed),
        r == seed as int % seed_bound(),
        seed < seed_bound() ==> r == seed,
{
    seed % 9223372036854775807u64
}

/// The hexadecimal digit character for `d` (which must be below 16).
pub open spec fn hex_char(d: int) -> char {
    if d < 10 {
        crate::digits::digit_char(d)
    } else if d == 10 {
        'a'
    } else if d == 11 {
        'b'
    } else if d == 12 {
        'c'
    } else if d == 13 {
        'd'
    } else if d == 14 {
        'e'
    } else {
        'f'
    }
}

/// The JSON string encoding of one character: quotes, backslashes and
/// control characters are escaped, all else passes through.
pub open spec fn esc_char(c: char) -> Seq<char> {
    if c == '"' {
        seq!['\\', '"']
    } else if c == '\\' {
        seq!['\\', '\\']
    } else if c == '\n' {
        seq!['\\', 'n']
    } else if c == '\r' {
        seq!['\\', 'r']
    } else if c == '\t' {
        seq!['\\', 't']
    } else if (c as u32) < 32 {
        seq!['\\', 'u', '0', '0', hex_char((c as u32 as int) / 16), hex_char((c as u32 as int) % 16)]
    } else {
        seq![c]
    }
}

/// The JSON string encoding of `s` (without surrounding quotes).
pub open spec fn json_escape(s: Seq<char>) -> Seq<char>
    decreases s.len(),
{
    if s.len() == 0 {
        Seq::<char>::empty()
    } else {
        json_escape(s.take(s.len() - 1)) + esc_char(s[s.len() - 1])
    }
}

/// The hexadecimal digit character of `d`.
fn hex_char_of(d: u32) -> (c: char)
    requires
        d < 16,
    ensures
        c == hex_char(d as int),
{
    if d < 10 {
        crate::digits::u64_dec_chars(d as u64)[0]
    } else if d == 10 {
        'a'
    } else if d == 11 {
        'b'
    } else if d == 12 {
        'c'
    } else if d == 13 {
        'd'
    } else if d == 14 {
        'e'
    } else {
        'f'
    }
}

/// Appends the JSON string encoding of `s` to `out`.
fn escape_append(out: &mut String, s: &str)
    ensures
        final(out)@ == old(out)@ + json_escape(s@),
{
    let v = crate::text::str_chars(s);
    let mut i: usize = 0;
    proof {
        assert(out@ =~= old(out)@ + json_escape(v@.take(0)));
    }
    while i < v.len()
        invariant
            i <= v@.len(),
            v@ == s@,
            out@ == old(out)@ + json_escape(v@.take(i as int)),
        decreases v@.len() - i,
    {
        let c = v[i];
        if c == '"' {
            out.push('\\');
            out.push('"');
        } else if c == '\\' {
            out.push('\\');
            out.push('\\');
        } else if c == '\n' {
            out.push('\\');
            out.push('n');
        } else if c == '\r' {
            out.push('\\');
            out.push('r');
        } else if c == '\t' {
            out.push('\\');
            out.push('t');
        } else if (c as u32) < 32 {
            out.push('\\');
            out.push('u');
            out.push('0');
            out.push('0');
            out.push(hex_char_of((c as u32) / 16));
            out.push(hex_char_of((c as u32) % 16));
        } else {
            out.push(c);
        }
        i = i + 1;
        proof {
            assert(v@.take(i as int).take(i - 1) =~= v@.take(i - 1));
            assert(out@ =~= old(out)@ + json_escape(v@.take(i as int)));
        }
    }
    proof {
        assert(v@.take(v@.len() as int) =~= v@);
    }
}

/// The JSON encoding of one conversation message.
pub open spec fn encode_message(m: MsgView) -> Seq<char> {
    "{\"role\":\""@ + role_name(m.role) + "\",\"content\":\""@ + json_escape(m.content) + "\"}"@
}

/// The JSON encoding of a message list, without the surrounding
/// brackets.
pub open spec fn encode_message_list(msgs: Seq<MsgView>) -> Seq<char>
    decreases msgs.len(),
{
    if msgs.len() == 0 {
        Seq::<char>::empty()
    } else if msgs.len() == 1 {
        encode_message(msgs[0])
    } else {
        encode_message_list(msgs.take(msgs.len() - 1)) + seq![','] + encode_message(
            msgs[msgs.len() - 1],
        )
    }
}

/// The JSON request body for one completion call: the model name, the
/// messages verbatim, the seed reduced modulo the signed 64-bit bound,
/// and the token limit when one is set.
pub open spec fn encode_request(
    model: Seq<char>,
    msgs: Seq<MsgView>,
    seed: u64,
    max_completion_tokens: Option<u64>,
) -> Seq<char> {
    "{\"model\":\""@ + json_escape(model) + "\",\"messages\":["@ + encode_message_list(msgs)
        + "],\"seed\":"@ + dec_digits(seed_mod(seed) as int) + (match max_completion_tokens {
        Option::None => Seq::<char>::empty(),
        Option::Some(m) => ",\"max_completion_tokens\":"@ + dec_digits(m as int),
    }) + "}"@
}

/// Appends the JSON encoding of `m` to `out`.
fn append_message(out: &mut String, m: &Message)
    ensures
        final(out)@ == old(out)@ + encode_message(m@),
{
    out.append("{\"role\":\"");
    out.append(role_str(m.role));
    out.append("\",\"content\":\"");
    escape_append(out, m.content.as_str());
    out.append("\"}");
    proof {
        assert(out@ =~= old(out)@ + encode_message(m@));
    }
}

/// Builds the JSON request body for one completion call.
pub fn build_request_body(
    model: &str,
    messages: &Vec<Message>,
    seed: u64,
    max_completion_tokens: Option<u64>,
) -> (r: String)
    ensures
        r@ == encode_request(model@, msg_views(messages@), seed, max_completion_tokens),
{
    let ghost msgs = msg_views(messages@);
    let mut out = String::new();
    out.append("{\"model\":\"");
    escape_append(&mut out, model);
    out.append("\",\"messages\":[");
    let ghost head = out@;
    let mut i: usize = 0;
    while i < messages.len()
        invariant
            i <= messages@.len(),
            msgs == msg_views(messages@),
            msgs.len() == messages@.len(),
            forall|m: int| 0 <= m < msgs.len() ==> msgs[m] == messages@[m]@,
            out@ == head + encode_message_list(msgs.take(i as int)),
        decreases messages@.len() - i,
    {
        if i > 0 {
            out.append(",");
        }
        append_message(&mut out, &messages[i]);
        i = i + 1;
        proof {
            reveal_strlit(",");
            assert(","@ =~= seq![',']);
            assert(msgs.take(i as int).take(i - 1) =~= msgs.take(i - 1));
            assert(msgs.take(i as int)[i - 1] == msgs[i - 1]);
            assert(out@ =~= head + encode_message_list(msgs.take(i as int)));
        }
    }
    proof {
        assert(msgs.take(msgs.len() as int) =~= msgs);
    }
    out.append("],\"seed\":");
    let bounded = bound_seed(seed);
    let seed_chars = u64_dec_chars(bounded);
    let seed_str = chars_string(&seed_chars);
    out.append(seed_str.as_str());
    match max_completion_tokens {
        Option::None => {},
        Option::Some(m) => {
            out.append(",\"max_completion_tokens\":");
            let m_chars = u64_dec_chars(m);
            let m_str = chars_string(&m_chars);
            out.append(m_str.as_str());
        },
    }
    out.append("}");
    proof {
        assert(out@ =~= encode_request(model@, msgs, seed, max_completion_tokens));
    }
    out
}

} // verus!
