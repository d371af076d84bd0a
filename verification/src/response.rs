//! Decoding the completion service's JSON reply against the expected
//! response shape.
//!
//! The expected shape is an object holding `id` (string), `object`
//! (string), `created` (unsigned 64-bit number), `choices` (an array of
//! objects each holding `index`, `message` and `finish_reason`), and
//! `usage` (an object of three unsigned 64-bit token counts). Members
//! of every object may come in any order; unrecognised members are
//! skipped over (their values may be any JSON value); a member given
//! twice, or a required member missing, is a failure. Whitespace is
//! allowed between tokens; strings use the standard JSON escapes,
//! `\uXXXX` (with surrogate pairs) included. A body of any other shape
//! is a decode failure.

use vstd::prelude::*;
use crate::msg::{Message, MsgView, Role, msg_views, role_of_name};
use crate::text::{str_chars, chars_string, chars_eq};

verus! {

broadcast use vstd::utf8::char_u32_cast;

/// JSON's inter-token whitespace characters.
pub open spec fn is_json_ws(c: char) -> bool {
    c == ' ' || c == '\t' || c == '\n' || c == '\r'
}

/// The first position at or after `i` holding a non-whitespace
/// character (or the end of input).
pub open spec fn sp_ws(s: Seq<char>, i: int) -> int
    decreases s.len() - i,
{
    if 0 <= i < s.len() && is_json_ws(s[i]) {
        sp_ws(s, i + 1)
    } else {
        i
    }
}

/// The position after `lit` when `s` holds `lit` verbatim at `i`.
pub open spec fn sp_lit(s: Seq<char>, i: int, lit: Seq<char>) -> Option<int> {
    if 0 <= i && i + lit.len() <= s.len() && s.subrange(i, i + lit.len()) == lit {
        Some(i + lit.len())
    } else {
        None
    }
}

/// The character denoted by the one-character escape `\c`, if `c` is
/// such an escape (`\u` is handled separately).
pub open spec fn unescape(c: char) -> Option<char> {
    if c == '"' {
        Some('"')
    } else if c == '\\' {
        Some('\\')
    } else if c == '/' {
        Some('/')
    } else if c == 'n' {
        Some('\n')
    } else if c == 't' {
        Some('\t')
    } else if c == 'r' {
        Some('\r')
    } else if c == 'b' {
        Some('\u{0008}')
    } else if c == 'f' {
        Some('\u{000C}')
    } else {
        None
    }
}

/// The value of a hexadecimal digit character, if `c` is one.
pub open spec fn hex_val(c: char) -> Option<int> {
    if '0' <= c && c <= '9' {
        Some(c as u32 as int - '0' as u32 as int)
    } else if 'a' <= c && c <= 'f' {
        Some(10 + c as u32 as int - 'a' as u32 as int)
    } else if 'A' <= c && c <= 'F' {
        Some(10 + c as u32 as int - 'A' as u32 as int)
    } else {
        None
    }
}

/// The value of the four hexadecimal digits at `i`, if they are there.
pub open spec fn hex4(s: Seq<char>, i: int) -> Option<int> {
    if 0 <= i && i + 4 <= s.len() {
        match hex_val(s[i]) {
            None => None,
            Some(a) => match hex_val(s[i + 1]) {
                None => None,
                Some(b) => match hex_val(s[i + 2]) {
                    None => None,
                    Some(c) => match hex_val(s[i + 3]) {
                        None => None,
                        Some(d) => Some(a * 4096 + b * 256 + c * 16 + d),
                    },
                },
            },
        }
    } else {
        None
    }
}

/// The content and end position of a JSON string whose opening quote
/// stands just before `i`: characters up to the closing quote, with
/// escapes decoded (`\uXXXX` included, a supplementary character as a
/// surrogate pair); unescaped control characters, unknown escapes, a
/// lone surrogate and an unterminated string are failures.
pub open spec fn sp_string_body(s: Seq<char>, i: int) -> Option<(Seq<char>, int)>
    decreases s.len() - i,
{
    if !(0 <= i < s.len()) {
        None
    } else if s[i] == '"' {
        Some((Seq::<char>::empty(), i + 1))
    } else if s[i] == '\\' {
        if !(i + 1 < s.len()) {
            None
        } else if s[i + 1] == 'u' {
            match hex4(s, i + 2) {
                None => None,
                Some(h) => if 0xD800 <= h < 0xDC00 {
                    if i + 11 < s.len() && s[i + 6] == '\\' && s[i + 7] == 'u' {
                        match hex4(s, i + 8) {
                            None => None,
                            Some(l) => if 0xDC00 <= l < 0xE000 {
                                match sp_string_body(s, i + 12) {
                                    None => None,
                                    Some(rest) => Some(
                                        (
                                            seq![
                                                (((0x10000 + (h - 0xD800) * 0x400 + (l - 0xDC00))
                                                    as u32) as char),
                                            ] + rest.0,
                                            rest.1,
                                        ),
                                    ),
                                }
                            } else {
                                None
                            },
                        }
                    } else {
                        None
                    }
                } else if 0xDC00 <= h < 0xE000 {
                    None
                } else {
                    match sp_string_body(s, i + 6) {
                        None => None,
                        Some(rest) => Some((seq![((h as u32) as char)] + rest.0, rest.1)),
                    }
                },
            }
        } else {
            match unescape(s[i + 1]) {
                None => None,
                Some(c) => match sp_string_body(s, i + 2) {
                    None => None,
                    Some(rest) => Some((seq![c] + rest.0, rest.1)),
                },
            }
        }
    } else if (s[i] as u32) < 32 {
        None
    } else {
        match sp_string_body(s, i + 1) {
            None => None,
            Some(rest) => Some((seq![s[i]] + rest.0, rest.1)),
        }
    }
}

/// The content and end position of a JSON string starting at `i`.
pub open spec fn sp_string(s: Seq<char>, i: int) -> Option<(Seq<char>, int)> {
    if 0 <= i < s.len() && s[i] == '"' {
        sp_string_body(s, i + 1)
    } else {
        None
    }
}

/// A decimal digit.
pub open spec fn is_digit(c: char) -> bool {
    '0' <= c && c <= '9'
}

/// The value of a decimal digit.
pub open spec fn digit_val(c: char) -> int {
    c as u32 as int - '0' as u32 as int
}

/// The value and end position of the digit run starting at `i`, with
/// `acc` already accumulated.
pub open spec fn sp_num_loop(s: Seq<char>, i: int, acc: int) -> (int, int)
    decreases s.len() - i,
{
    if 0 <= i < s.len() && is_digit(s[i]) {
        sp_num_loop(s, i + 1, acc * 10 + digit_val(s[i]))
    } else {
        (acc, i)
    }
}

/// The value and end position of a JSON unsigned number at `i`. A
/// leading zero followed by more digits, and a value that does not fit
/// in 64 bits, are failures.
pub open spec fn sp_u64(s: Seq<char>, i: int) -> Option<(u64, int)> {
    if 0 <= i < s.len() && is_digit(s[i]) {
        if s[i] == '0' && i + 1 < s.len() && is_digit(s[i + 1]) {
            None
        } else {
            let r = sp_num_loop(s, i, 0);
            if r.0 <= u64::MAX {
                Some((r.0 as u64, r.1))
            } else {
                None
            }
        }
    } else {
        None
    }
}

/// The accumulated value of a digit run never shrinks.
proof fn lemma_num_loop_monotone(s: Seq<char>, i: int, acc: int)
    requires
        acc >= 0,
    ensures
        sp_num_loop(s, i, acc).0 >= acc,
    decreases s.len() - i,
{
    if 0 <= i < s.len() && is_digit(s[i]) {
        lemma_num_loop_monotone(s, i + 1, acc * 10 + digit_val(s[i]));
    }
}

/// The end of an optional JSON fraction part at `i`.
pub open spec fn sp_frac(s: Seq<char>, i: int) -> Option<int> {
    if 0 <= i < s.len() && s[i] == '.' {
        if i + 1 < s.len() && is_digit(s[i + 1]) {
            Some(sp_num_loop(s, i + 1, 0).1)
        } else {
            None
        }
    } else {
        Some(i)
    }
}

/// The end of an optional JSON exponent part at `i`.
pub open spec fn sp_exp(s: Seq<char>, i: int) -> Option<int> {
    if 0 <= i < s.len() && (s[i] == 'e' || s[i] == 'E') {
        let j = if i + 1 < s.len() && (s[i + 1] == '+' || s[i + 1] == '-') {
            i + 2
        } else {
            i + 1
        };
        if 0 <= j < s.len() && is_digit(s[j]) {
            Some(sp_num_loop(s, j, 0).1)
        } else {
            None
        }
    } else {
        Some(i)
    }
}

/// The end of a whole JSON number at `i` (used when skipping a value
/// whose member is not recognised).
pub open spec fn sp_skip_number(s: Seq<char>, i: int) -> Option<int> {
    let i1 = if 0 <= i < s.len() && s[i] == '-' {
        i + 1
    } else {
        i
    };
    if !(0 <= i1 < s.len() && is_digit(s[i1])) {
        None
    } else {
        let i2 = if s[i1] == '0' {
            i1 + 1
        } else {
            sp_num_loop(s, i1, 0).1
        };
        match sp_frac(s, i2) {
            None => None,
            Some(i3) => sp_exp(s, i3),
        }
    }
}

/// The end of any JSON value at `i` (leading whitespace included),
/// reading just enough of it to know its extent.
pub open spec fn sp_skip_value(s: Seq<char>, i: int) -> Option<int>
    decreases s.len() - i, 0int,
{
    let i0 = sp_ws(s, i);
    if !(i <= i0 < s.len()) {
        None
    } else if s[i0] == '"' {
        match sp_string(s, i0) {
            None => None,
            Some(p) => Some(p.1),
        }
    } else if s[i0] == '{' {
        sp_skip_object_rest(s, i0 + 1)
    } else if s[i0] == '[' {
        sp_skip_array_rest(s, i0 + 1)
    } else if s[i0] == 't' {
        sp_lit(s, i0, "true"@)
    } else if s[i0] == 'f' {
        sp_lit(s, i0, "false"@)
    } else if s[i0] == 'n' {
        sp_lit(s, i0, "null"@)
    } else if s[i0] == '-' || is_digit(s[i0]) {
        sp_skip_number(s, i0)
    } else {
        None
    }
}

/// The end of the remainder of a JSON object whose `{` stands just
/// before `i`, skipping every member.
pub open spec fn sp_skip_object_rest(s: Seq<char>, i: int) -> Option<int>
    decreases s.len() - i, 1int,
{
    let j = sp_ws(s, i);
    if !(i <= j) {
        None
    } else if j < s.len() && s[j] == '}' {
        Some(j + 1)
    } else {
        match sp_string(s, j) {
            None => None,
            Some((_name, j1)) => {
                let j2 = sp_ws(s, j1);
                if !(j2 < s.len() && s[j2] == ':') {
                    None
                } else if !(i < j2 + 1 <= s.len()) {
                    None
                } else {
                    match sp_skip_value(s, j2 + 1) {
                        None => None,
                        Some(j3) => {
                            let j4 = sp_ws(s, j3);
                            if j4 < s.len() && s[j4] == ',' {
                                if i < j4 + 1 <= s.len() {
                                    sp_skip_object_rest(s, j4 + 1)
                                } else {
                                    None
                                }
                            } else if j4 < s.len() && s[j4] == '}' {
                                Some(j4 + 1)
                            } else {
                                None
                            }
                        },
                    }
                }
            },
        }
    }
}

/// The end of the remainder of a JSON array whose `[` stands just
/// before `i`, skipping every element.
pub open spec fn sp_skip_array_rest(s: Seq<char>, i: int) -> Option<int>
    decreases s.len() - i, 1int,
{
    let j = sp_ws(s, i);
    if !(i <= j) {
        None
    } else if j < s.len() && s[j] == ']' {
        Some(j + 1)
    } else {
        match sp_skip_value(s, i) {
            None => None,
            Some(j3) => {
                let j4 = sp_ws(s, j3);
                if j4 < s.len() && s[j4] == ',' {
                    if i < j4 + 1 <= s.len() {
                        sp_skip_array_rest(s, j4 + 1)
                    } else {
                        None
                    }
                } else if j4 < s.len() && s[j4] == ']' {
                    Some(j4 + 1)
                } else {
                    None
                }
            },
        }
    }
}

/// Which members of a message object have been read.
pub ghost struct MsgFields {
    pub role: Option<Role>,
    pub content: Option<Seq<char>>,
}

/// No message member read yet.
pub open spec fn no_msg_fields() -> MsgFields {
    MsgFields { role: None, content: None }
}

/// The members of a message object from `i` on (after `{` or a `,`),
/// with `f` already read: `role` (a recognised role name) and `content`
/// (a string) in any order, other members skipped, duplicates refused.
pub open spec fn sp_message_members(s: Seq<char>, i: int, f: MsgFields) -> Option<(MsgFields, int)>
    decreases s.len() - i,
{
    let j = sp_ws(s, i);
    match sp_string(s, j) {
        None => None,
        Some((name, j1)) => {
            let j2 = sp_ws(s, j1);
            if !(j2 < s.len() && s[j2] == ':') {
                None
            } else {
                let v = j2 + 1;
                let step: Option<(MsgFields, int)> = if name == "role"@ {
                    if f.role is Some {
                        None
                    } else {
                        match sp_string(s, sp_ws(s, v)) {
                            None => None,
                            Some((rn, j3)) => match role_of_name(rn) {
                                None => None,
                                Some(role) => Some((MsgFields { role: Some(role), ..f }, j3)),
                            },
                        }
                    }
                } else if name == "content"@ {
                    if f.content is Some {
                        None
                    } else {
                        match sp_string(s, sp_ws(s, v)) {
                            None => None,
                            Some((c, j3)) => Some((MsgFields { content: Some(c), ..f }, j3)),
                        }
                    }
                } else {
                    match sp_skip_value(s, v) {
                        None => None,
                        Some(j3) => Some((f, j3)),
                    }
                };
                match step {
                    None => None,
                    Some((f2, j3)) => {
                        let j4 = sp_ws(s, j3);
                        if j4 < s.len() && s[j4] == ',' {
                            if i < j4 + 1 <= s.len() {
                                sp_message_members(s, j4 + 1, f2)
                            } else {
                                None
                            }
                        } else if j4 < s.len() && s[j4] == '}' {
                            Some((f2, j4 + 1))
                        } else {
                            None
                        }
                    },
                }
            }
        },
    }
}

/// The message object at `i`: both `role` and `content` must be
/// present.
pub open spec fn sp_message_obj(s: Seq<char>, i: int) -> Option<(MsgView, int)> {
    let i0 = sp_ws(s, i);
    if !(i0 < s.len() && s[i0] == '{') {
        None
    } else {
        let j = sp_ws(s, i0 + 1);
        let fini: Option<(MsgFields, int)> = if j < s.len() && s[j] == '}' {
            Some((no_msg_fields(), j + 1))
        } else {
            sp_message_members(s, i0 + 1, no_msg_fields())
        };
        match fini {
            None => None,
            Some((f, end)) => match f.role {
                None => None,
                Some(role) => match f.content {
                    None => None,
                    Some(content) => Some((MsgView { role, content }, end)),
                },
            },
        }
    }
}

/// Which members of a choice object have been read.
pub ghost struct ChoiceFields {
    pub has_index: bool,
    pub message: Option<MsgView>,
    pub has_finish: bool,
}

/// No choice member read yet.
pub open spec fn no_choice_fields() -> ChoiceFields {
    ChoiceFields { has_index: false, message: None, has_finish: false }
}

/// The members of a choice object from `i` on: `index` (a number),
/// `message` (a message object) and `finish_reason` (a string) in any
/// order, other members skipped, duplicates refused.
pub open spec fn sp_choice_members(s: Seq<char>, i: int, f: ChoiceFields) -> Option<
    (ChoiceFields, int),
>
    decreases s.len() - i,
{
    let j = sp_ws(s, i);
    match sp_string(s, j) {
        None => None,
        Some((name, j1)) => {
            let j2 = sp_ws(s, j1);
            if !(j2 < s.len() && s[j2] == ':') {
                None
            } else {
                let v = j2 + 1;
                let step: Option<(ChoiceFields, int)> = if name == "index"@ {
                    if f.has_index {
                        None
                    } else {
                        match sp_u64(s, sp_ws(s, v)) {
                            None => None,
                            Some((_n, j3)) => Some((ChoiceFields { has_index: true, ..f }, j3)),
                        }
                    }
                } else if name == "message"@ {
                    if f.message is Some {
                        None
                    } else {
                        match sp_message_obj(s, v) {
                            None => None,
                            Some((m, j3)) => Some((ChoiceFields { message: Some(m), ..f }, j3)),
                        }
                    }
                } else if name == "finish_reason"@ {
                    if f.has_finish {
                        None
                    } else {
                        match sp_string(s, sp_ws(s, v)) {
                            None => None,
                            Some((_fr, j3)) => Some((ChoiceFields { has_finish: true, ..f }, j3)),
                        }
                    }
                } else {
                    match sp_skip_value(s, v) {
                        None => None,
                        Some(j3) => Some((f, j3)),
                    }
                };
                match step {
                    None => None,
                    Some((f2, j3)) => {
                        let j4 = sp_ws(s, j3);
                        if j4 < s.len() && s[j4] == ',' {
                            if i < j4 + 1 <= s.len() {
                                sp_choice_members(s, j4 + 1, f2)
                            } else {
                                None
                            }
                        } else if j4 < s.len() && s[j4] == '}' {
                            Some((f2, j4 + 1))
                        } else {
                            None
                        }
                    },
                }
            }
        },
    }
}

/// The choice object at `i`: `index`, `message` and `finish_reason`
/// must all be present; its value is its message.
pub open spec fn sp_choice_obj(s: Seq<char>, i: int) -> Option<(MsgView, int)> {
    let i0 = sp_ws(s, i);
    if !(i0 < s.len() && s[i0] == '{') {
        None
    } else {
        let j = sp_ws(s, i0 + 1);
        let fini: Option<(ChoiceFields, int)> = if j < s.len() && s[j] == '}' {
            Some((no_choice_fields(), j + 1))
        } else {
            sp_choice_members(s, i0 + 1, no_choice_fields())
        };
        match fini {
            None => None,
            Some((f, end)) => if f.has_index && f.has_finish {
                match f.message {
                    None => None,
                    Some(m) => Some((m, end)),
                }
            } else {
                None
            },
        }
    }
}

/// One or more comma-separated choices and the closing `]`, the `[`
/// standing just before `i`.
pub open spec fn sp_choice_array(s: Seq<char>, i: int) -> Option<(Seq<MsgView>, int)>
    decreases s.len() - i,
{
    match sp_choice_obj(s, i) {
        None => None,
        Some((m, j)) => {
            let j1 = sp_ws(s, j);
            if j1 < s.len() && s[j1] == ',' {
                if i < j1 + 1 <= s.len() {
                    match sp_choice_array(s, j1 + 1) {
                        None => None,
                        Some((rest, k)) => Some((seq![m] + rest, k)),
                    }
                } else {
                    None
                }
            } else if j1 < s.len() && s[j1] == ']' {
                Some((seq![m], j1 + 1))
            } else {
                None
            }
        },
    }
}

/// The choices array at `i`: `[ ]`, or `[ <choice>, ... ]`.
pub open spec fn sp_choices_value(s: Seq<char>, i: int) -> Option<(Seq<MsgView>, int)> {
    let i0 = sp_ws(s, i);
    if !(i0 < s.len() && s[i0] == '[') {
        None
    } else {
        let j = sp_ws(s, i0 + 1);
        if j < s.len() && s[j] == ']' {
            Some((Seq::<MsgView>::empty(), j + 1))
        } else {
            sp_choice_array(s, i0 + 1)
        }
    }
}

/// Which members of the usage object have been read.
pub ghost struct UsageFields {
    pub has_prompt: bool,
    pub has_completion: bool,
    pub has_total: bool,
}

/// No usage member read yet.
pub open spec fn no_usage_fields() -> UsageFields {
    UsageFields { has_prompt: false, has_completion: false, has_total: false }
}

/// The members of the usage object from `i` on: the three token counts
/// in any order, other members skipped, duplicates refused.
pub open spec fn sp_usage_members(s: Seq<char>, i: int, f: UsageFields) -> Option<
    (UsageFields, int),
>
    decreases s.len() - i,
{
    let j = sp_ws(s, i);
    match sp_string(s, j) {
        None => None,
        Some((name, j1)) => {
            let j2 = sp_ws(s, j1);
            if !(j2 < s.len() && s[j2] == ':') {
                None
            } else {
                let v = j2 + 1;
                let step: Option<(UsageFields, int)> = if name == "prompt_tokens"@ {
                    if f.has_prompt {
                        None
                    } else {
                        match sp_u64(s, sp_ws(s, v)) {
                            None => None,
                            Some((_n, j3)) => Some((UsageFields { has_prompt: true, ..f }, j3)),
                        }
                    }
                } else if name == "completion_tokens"@ {
                    if f.has_completion {
                        None
                    } else {
                        match sp_u64(s, sp_ws(s, v)) {
                            None => None,
                            Some((_n, j3)) => Some((UsageFields { has_completion: true, ..f }, j3)),
                        }
                    }
                } else if name == "total_tokens"@ {
                    if f.has_total {
                        None
                    } else {
                        match sp_u64(s, sp_ws(s, v)) {
                            None => None,
                            Some((_n, j3)) => Some((UsageFields { has_total: true, ..f }, j3)),
                        }
                    }
                } else {
                    match sp_skip_value(s, v) {
                        None => None,
                        Some(j3) => Some((f, j3)),
                    }
                };
                match step {
                    None => None,
                    Some((f2, j3)) => {
                        let j4 = sp_ws(s, j3);
                        if j4 < s.len() && s[j4] == ',' {
                            if i < j4 + 1 <= s.len() {
                                sp_usage_members(s, j4 + 1, f2)
                            } else {
                                None
                            }
                        } else if j4 < s.len() && s[j4] == '}' {
                            Some((f2, j4 + 1))
                        } else {
                            None
                        }
                    },
                }
            }
        },
    }
}

/// The usage object at `i`: all three token counts must be present.
pub open spec fn sp_usage_obj(s: Seq<char>, i: int) -> Option<int> {
    let i0 = sp_ws(s, i);
    if !(i0 < s.len() && s[i0] == '{') {
        None
    } else {
        let j = sp_ws(s, i0 + 1);
        let fini: Option<(UsageFields, int)> = if j < s.len() && s[j] == '}' {
            Some((no_usage_fields(), j + 1))
        } else {
            sp_usage_members(s, i0 + 1, no_usage_fields())
        };
        match fini {
            None => None,
            Some((f, end)) => if f.has_prompt && f.has_completion && f.has_total {
                Some(end)
            } else {
                None
            },
        }
    }
}

/// Which members of the response object have been read.
pub ghost struct RespFields {
    pub has_id: bool,
    pub has_object: bool,
    pub has_created: bool,
    pub choices: Option<Seq<MsgView>>,
    pub has_usage: bool,
}

/// No response member read yet.
pub open spec fn no_resp_fields() -> RespFields {
    RespFields { has_id: false, has_object: false, has_created: false, choices: None, has_usage: false }
}

/// The members of the response object from `i` on: `id` and `object`
/// (strings), `created` (a number), `choices` (the array) and `usage`
/// (the usage object) in any order, other members skipped, duplicates
/// refused.
pub open spec fn sp_resp_members(s: Seq<char>, i: int, f: RespFields) -> Option<(RespFields, int)>
    decreases s.len() - i,
{
    let j = sp_ws(s, i);
    match sp_string(s, j) {
        None => None,
        Some((name, j1)) => {
            let j2 = sp_ws(s, j1);
            if !(j2 < s.len() && s[j2] == ':') {
                None
            } else {
                let v = j2 + 1;
                let step: Option<(RespFields, int)> = if name == "id"@ {
                    if f.has_id {
                        None
                    } else {
                        match sp_string(s, sp_ws(s, v)) {
                            None => None,
                            Some((_s, j3)) => Some((RespFields { has_id: true, ..f }, j3)),
                        }
                    }
                } else if name == "object"@ {
                    if f.has_object {
                        None
                    } else {
                        match sp_string(s, sp_ws(s, v)) {
                            None => None,
                            Some((_s, j3)) => Some((RespFields { has_object: true, ..f }, j3)),
                        }
                    }
                } else if name == "created"@ {
                    if f.has_created {
                        None
                    } else {
                        match sp_u64(s, sp_ws(s, v)) {
                            None => None,
                            Some((_n, j3)) => Some((RespFields { has_created: true, ..f }, j3)),
                        }
                    }
                } else if name == "choices"@ {
                    if f.choices is Some {
                        None
                    } else {
                        match sp_choices_value(s, v) {
                            None => None,
                            Some((msgs, j3)) => Some((RespFields { choices: Some(msgs), ..f }, j3)),
                        }
                    }
                } else if name == "usage"@ {
                    if f.has_usage {
                        None
                    } else {
                        match sp_usage_obj(s, v) {
                            None => None,
                            Some(j3) => Some((RespFields { has_usage: true, ..f }, j3)),
                        }
                    }
                } else {
                    match sp_skip_value(s, v) {
                        None => None,
                        Some(j3) => Some((f, j3)),
                    }
                };
                match step {
                    None => None,
                    Some((f2, j3)) => {
                        let j4 = sp_ws(s, j3);
                        if j4 < s.len() && s[j4] == ',' {
                            if i < j4 + 1 <= s.len() {
                                sp_resp_members(s, j4 + 1, f2)
                            } else {
                                None
                            }
                        } else if j4 < s.len() && s[j4] == '}' {
                            Some((f2, j4 + 1))
                        } else {
                            None
                        }
                    },
                }
            }
        },
    }
}

/// The whole response body: its choices' messages when `s` is a JSON
/// text of the expected response shape (all five required members
/// present, in any order, with anything unrecognised skipped), and
/// nothing otherwise.
pub open spec fn sp_response(s: Seq<char>) -> Option<Seq<MsgView>> {
    let i0 = sp_ws(s, 0);
    if !(i0 < s.len() && s[i0] == '{') {
        None
    } else {
        let j = sp_ws(s, i0 + 1);
        let fini: Option<(RespFields, int)> = if j < s.len() && s[j] == '}' {
            Some((no_resp_fields(), j + 1))
        } else {
            sp_resp_members(s, i0 + 1, no_resp_fields())
        };
        match fini {
            None => None,
            Some((f, end)) => if f.has_id && f.has_object && f.has_created && f.has_usage {
                match f.choices {
                    None => None,
                    Some(msgs) => if sp_ws(s, end) == s.len() {
                        Some(msgs)
                    } else {
                        None
                    },
                }
            } else {
                None
            },
        }
    }
}

/// Executable test for [`is_json_ws`].
fn is_json_ws_char(c: char) -> (b: bool)
    ensures
        b == is_json_ws(c),
{
    c == ' ' || c == '\t' || c == '\n' || c == '\r'
}

/// Skips inter-token whitespace from `i`.
fn skip_ws(v: &Vec<char>, i: usize) -> (j: usize)
    requires
        i <= v@.len(),
    ensures
        j as int == sp_ws(v@, i as int),
        i <= j <= v@.len(),
{
    let mut j = i;
    while j < v.len() && is_json_ws_char(v[j])
        invariant
            i <= j <= v@.len(),
            sp_ws(v@, i as int) == sp_ws(v@, j as int),
        decreases v@.len() - j,
    {
        j = j + 1;
    }
    j
}

/// Matches `lit` verbatim at `i`.
fn expect_lit(v: &Vec<char>, i: usize, lit: &Vec<char>) -> (r: Option<usize>)
    requires
        i <= v@.len(),
    ensures
        ({
            let sp = sp_lit(v@, i as int, lit@);
            match r {
                None => sp is None,
                Some(j) => sp == Some(j as int) && j == i + lit@.len() && j <= v@.len(),
            }
        }),
{
    let n = v.len();
    if lit.len() > n - i {
        return None;
    }
    let mut k: usize = 0;
    while k < lit.len()
        invariant
            k <= lit@.len(),
            n == v@.len(),
            i + lit@.len() <= n,
            forall|m: int| 0 <= m < k ==> v@[i + m] == lit@[m],
        decreases lit@.len() - k,
    {
        if v[i + k] != lit[k] {
            proof {
                assert(v@.subrange(i as int, i + lit@.len())[k as int] == v@[i + k]);
            }
            return None;
        }
        k = k + 1;
    }
    proof {
        assert(v@.subrange(i as int, i + lit@.len()) =~= lit@);
    }
    Some(i + lit.len())
}

/// Executable test for [`unescape`].
fn unescape_char(c: char) -> (r: Option<char>)
    ensures
        r == unescape(c),
{
    if c == '"' {
        Some('"')
    } else if c == '\\' {
        Some('\\')
    } else if c == '/' {
        Some('/')
    } else if c == 'n' {
        Some('\n')
    } else if c == 't' {
        Some('\t')
    } else if c == 'r' {
        Some('\r')
    } else if c == 'b' {
        Some('\u{0008}')
    } else if c == 'f' {
        Some('\u{000C}')
    } else {
        None
    }
}

/// Executable test for [`hex_val`].
fn hex_val_of(c: char) -> (r: Option<u32>)
    ensures
        match r {
            None => hex_val(c) is None,
            Some(x) => hex_val(c) == Some(x as int) && x < 16,
        },
{
    if '0' <= c && c <= '9' {
        Some(c as u32 - '0' as u32)
    } else if 'a' <= c && c <= 'f' {
        Some(10 + c as u32 - 'a' as u32)
    } else if 'A' <= c && c <= 'F' {
        Some(10 + c as u32 - 'A' as u32)
    } else {
        None
    }
}

/// Reads the four hexadecimal digits at `i`.
fn parse_hex4(v: &Vec<char>, i: usize) -> (r: Option<u32>)
    requires
        i <= v@.len(),
    ensures
        match r {
            None => hex4(v@, i as int) is None,
            Some(x) => hex4(v@, i as int) == Some(x as int) && x <= 0xFFFF,
        },
{
    if v.len() - i < 4 {
        return None;
    }
    let a = match hex_val_of(v[i]) {
        None => {
            return None;
        },
        Some(x) => x,
    };
    let b = match hex_val_of(v[i + 1]) {
        None => {
            return None;
        },
        Some(x) => x,
    };
    let c = match hex_val_of(v[i + 2]) {
        None => {
            return None;
        },
        Some(x) => x,
    };
    let d = match hex_val_of(v[i + 3]) {
        None => {
            return None;
        },
        Some(x) => x,
    };
    Some(a * 4096 + b * 256 + c * 16 + d)
}

/// Relies on `char::from_u32` from std: for a Unicode scalar value it
/// returns exactly the character with that value (`None` only for
/// surrogates and out-of-range values, which the caller excludes).
#[verifier::external_body]
fn char_of_scalar(code: u32) -> (c: char)
    requires
        vstd::utf8::is_scalar(code),
    ensures
        c as u32 == code,
{
    char::from_u32(code).unwrap_or(' ')
}

/// Reads string content after an opening quote, decoding escapes.
fn parse_string_body(v: &Vec<char>, i: usize) -> (r: Option<(Vec<char>, usize)>)
    requires
        i <= v@.len(),
    ensures
        ({
            let sp = sp_string_body(v@, i as int);
            match r {
                None => sp is None,
                Some(p) => sp matches Some(q) && q.0 == p.0@ && q.1 == p.1 as int && i < p.1
                    <= v@.len(),
            }
        }),
    decreases v@.len() - i,
{
    let n = v.len();
    if i >= n {
        return None;
    }
    let c = v[i];
    if c == '"' {
        let done: Vec<char> = Vec::new();
        proof {
            assert(done@ =~= Seq::<char>::empty());
        }
        Some((done, i + 1))
    } else if c == '\\' {
        if !(i + 1 < n) {
            return None;
        }
        if v[i + 1] == 'u' {
            let h = match parse_hex4(v, i + 2) {
                None => {
                    return None;
                },
                Some(h) => h,
            };
            if 0xD800 <= h && h < 0xDC00 {
                if n - i >= 13 && v[i + 6] == '\\' && v[i + 7] == 'u' {
                    let l = match parse_hex4(v, i + 8) {
                        None => {
                            return None;
                        },
                        Some(l) => l,
                    };
                    if 0xDC00 <= l && l < 0xE000 {
                        let code: u32 = 0x10000 + (h - 0xD800) * 0x400 + (l - 0xDC00);
                        proof {
                            assert(vstd::utf8::is_scalar(code));
                        }
                        let d = char_of_scalar(code);
                        match parse_string_body(v, i + 12) {
                            None => None,
                            Some((rest, j)) => {
                                let mut rest = rest;
                                let ghost oldr = rest@;
                                rest.insert(0, d);
                                proof {
                                    assert(rest@ =~= seq![d] + oldr);
                                }
                                Some((rest, j))
                            },
                        }
                    } else {
                        None
                    }
                } else {
                    None
                }
            } else if 0xDC00 <= h && h < 0xE000 {
                None
            } else {
                proof {
                    assert(vstd::utf8::is_scalar(h));
                }
                let d = char_of_scalar(h);
                match parse_string_body(v, i + 6) {
                    None => None,
                    Some((rest, j)) => {
                        let mut rest = rest;
                        let ghost oldr = rest@;
                        rest.insert(0, d);
                        proof {
                            assert(rest@ =~= seq![d] + oldr);
                        }
                        Some((rest, j))
                    },
                }
            }
        } else {
            match unescape_char(v[i + 1]) {
                None => None,
                Some(d) => {
                    match parse_string_body(v, i + 2) {
                        None => None,
                        Some((rest, j)) => {
                            let mut rest = rest;
                            let ghost oldr = rest@;
                            rest.insert(0, d);
                            proof {
                                assert(rest@ =~= seq![d] + oldr);
                            }
                            Some((rest, j))
                        },
                    }
                },
            }
        }
    } else if (c as u32) < 32 {
        None
    } else {
        match parse_string_body(v, i + 1) {
            None => None,
            Some((rest, j)) => {
                let mut rest = rest;
                let ghost oldr = rest@;
                rest.insert(0, c);
                proof {
                    assert(rest@ =~= seq![c] + oldr);
                }
                Some((rest, j))
            },
        }
    }
}

/// Reads a whole JSON string at `i`.
fn parse_string(v: &Vec<char>, i: usize) -> (r: Option<(Vec<char>, usize)>)
    requires
        i <= v@.len(),
    ensures
        ({
            let sp = sp_string(v@, i as int);
            match r {
                None => sp is None,
                Some(p) => sp matches Some(q) && q.0 == p.0@ && q.1 == p.1 as int && i < p.1
                    <= v@.len(),
            }
        }),
{
    if i < v.len() && v[i] == '"' {
        parse_string_body(v, i + 1)
    } else {
        None
    }
}

/// Executable test for [`is_digit`].
fn is_digit_char(c: char) -> (b: bool)
    ensures
        b == is_digit(c),
{
    '0' <= c && c <= '9'
}

/// The end position of a digit run does not depend on the accumulator.
proof fn lemma_num_loop_end(s: Seq<char>, i: int, a: int, b: int)
    ensures
        sp_num_loop(s, i, a).1 == sp_num_loop(s, i, b).1,
    decreases s.len() - i,
{
    if 0 <= i < s.len() && is_digit(s[i]) {
        lemma_num_loop_end(s, i + 1, a * 10 + digit_val(s[i]), b * 10 + digit_val(s[i]));
    }
}

/// The position after the digit run starting at `i`.
fn digit_run_end(v: &Vec<char>, i: usize) -> (j: usize)
    requires
        i <= v@.len(),
    ensures
        j as int == sp_num_loop(v@, i as int, 0).1,
        i <= j <= v@.len(),
{
    let mut j = i;
    while j < v.len() && is_digit_char(v[j])
        invariant
            i <= j <= v@.len(),
            sp_num_loop(v@, i as int, 0).1 == sp_num_loop(v@, j as int, 0).1,
        decreases v@.len() - j,
    {
        proof {
            lemma_num_loop_end(v@, j as int + 1, digit_val(v@[j as int]), 0);
        }
        j = j + 1;
    }
    j
}

/// Reads a JSON unsigned 64-bit number at `i`.
fn parse_u64(v: &Vec<char>, i: usize) -> (r: Option<(u64, usize)>)
    requires
        i <= v@.len(),
    ensures
        ({
            let sp = sp_u64(v@, i as int);
            match r {
                None => sp is None,
                Some(p) => sp matches Some(q) && q.0 == p.0 && q.1 == p.1 as int && i < p.1
                    <= v@.len(),
            }
        }),
{
    let n = v.len();
    if !(i < n && is_digit_char(v[i])) {
        return None;
    }
    if v[i] == '0' && i + 1 < n && is_digit_char(v[i + 1]) {
        return None;
    }
    let mut j = i;
    let mut acc: u64 = 0;
    while j < n && is_digit_char(v[j])
        invariant
            i <= j <= n,
            n == v@.len(),
            sp_num_loop(v@, i as int, 0) == sp_num_loop(v@, j as int, acc as int),
            j == i ==> i < n && is_digit(v@[i as int]),
        decreases n - j,
    {
        let d = (v[j] as u32 - '0' as u32) as u64;
        proof {
            assert(d == digit_val(v@[j as int]));
        }
        if acc > (u64::MAX - d) / 10 {
            proof {
                let next = acc as int * 10 + d as int;
                assert(next > u64::MAX);
                lemma_num_loop_monotone(v@, j as int + 1, next);
                assert(sp_num_loop(v@, j as int, acc as int) == sp_num_loop(v@, j as int + 1, next));
                assert(sp_num_loop(v@, i as int, 0).0 > u64::MAX);
            }
            return None;
        }
        acc = acc * 10 + d;
        j = j + 1;
    }
    proof {
        assert(sp_num_loop(v@, j as int, acc as int) == (acc as int, j as int));
    }
    Some((acc, j))
}

/// Skips past a whole JSON number at `i`.
fn skip_number(v: &Vec<char>, i: usize) -> (r: Option<usize>)
    requires
        i <= v@.len(),
    ensures
        ({
            let sp = sp_skip_number(v@, i as int);
            match r {
                None => sp is None,
                Some(j) => sp == Some(j as int) && i <= j <= v@.len(),
            }
        }),
{
    let n = v.len();
    let i1 = if i < n && v[i] == '-' {
        i + 1
    } else {
        i
    };
    if !(i1 < n && is_digit_char(v[i1])) {
        return None;
    }
    let i2 = if v[i1] == '0' {
        i1 + 1
    } else {
        digit_run_end(v, i1)
    };
    let i3 = if i2 < n && v[i2] == '.' {
        if i2 + 1 < n && is_digit_char(v[i2 + 1]) {
            digit_run_end(v, i2 + 1)
        } else {
            return None;
        }
    } else {
        i2
    };
    let i4 = if i3 < n && (v[i3] == 'e' || v[i3] == 'E') {
        let j = if i3 + 1 < n && (v[i3 + 1] == '+' || v[i3 + 1] == '-') {
            i3 + 2
        } else {
            i3 + 1
        };
        if j < n && is_digit_char(v[j]) {
            digit_run_end(v, j)
        } else {
            return None;
        }
    } else {
        i3
    };
    Some(i4)
}

/// Skips past any JSON value at `i`.
fn skip_value(v: &Vec<char>, i: usize) -> (r: Option<usize>)
    requires
        i <= v@.len(),
    ensures
        ({
            let sp = sp_skip_value(v@, i as int);
            match r {
                None => sp is None,
                Some(j) => sp == Some(j as int) && i <= j <= v@.len(),
            }
        }),
    decreases v@.len() - i, 0int,
{
    let i0 = skip_ws(v, i);
    if !(i0 < v.len()) {
        return None;
    }
    let c = v[i0];
    if c == '"' {
        match parse_string(v, i0) {
            None => None,
            Some((_s, j)) => Some(j),
        }
    } else if c == '{' {
        skip_object_rest(v, i0 + 1)
    } else if c == '[' {
        skip_array_rest(v, i0 + 1)
    } else if c == 't' {
        let lit: Vec<char> = vec!['t', 'r', 'u', 'e'];
        proof {
            reveal_strlit("true");
            assert(lit@ =~= "true"@);
        }
        expect_lit(v, i0, &lit)
    } else if c == 'f' {
        let lit: Vec<char> = vec!['f', 'a', 'l', 's', 'e'];
        proof {
            reveal_strlit("false");
            assert(lit@ =~= "false"@);
        }
        expect_lit(v, i0, &lit)
    } else if c == 'n' {
        let lit: Vec<char> = vec!['n', 'u', 'l', 'l'];
        proof {
            reveal_strlit("null");
            assert(lit@ =~= "null"@);
        }
        expect_lit(v, i0, &lit)
    } else if c == '-' || is_digit_char(c) {
        skip_number(v, i0)
    } else {
        None
    }
}

/// Skips the remaining members of a JSON object, its `{` just before
/// `i`.
fn skip_object_rest(v: &Vec<char>, i: usize) -> (r: Option<usize>)
    requires
        i <= v@.len(),
    ensures
        ({
            let sp = sp_skip_object_rest(v@, i as int);
            match r {
                None => sp is None,
                Some(j) => sp == Some(j as int) && i <= j <= v@.len(),
            }
        }),
    decreases v@.len() - i, 1int,
{
    let j = skip_ws(v, i);
    if j < v.len() && v[j] == '}' {
        return Some(j + 1);
    }
    let (_name, j1) = match parse_string(v, j) {
        None => {
            return None;
        },
        Some(p) => p,
    };
    let j2 = skip_ws(v, j1);
    if !(j2 < v.len() && v[j2] == ':') {
        return None;
    }
    let j3 = match skip_value(v, j2 + 1) {
        None => {
            return None;
        },
        Some(j3) => j3,
    };
    let j4 = skip_ws(v, j3);
    if j4 < v.len() && v[j4] == ',' {
        skip_object_rest(v, j4 + 1)
    } else if j4 < v.len() && v[j4] == '}' {
        Some(j4 + 1)
    } else {
        None
    }
}

/// Skips the remaining elements of a JSON array, its `[` just before
/// `i`.
fn skip_array_rest(v: &Vec<char>, i: usize) -> (r: Option<usize>)
    requires
        i <= v@.len(),
    ensures
        ({
            let sp = sp_skip_array_rest(v@, i as int);
            match r {
                None => sp is None,
                Some(j) => sp == Some(j as int) && i <= j <= v@.len(),
            }
        }),
    decreases v@.len() - i, 1int,
{
    let j = skip_ws(v, i);
    if j < v.len() && v[j] == ']' {
        return Some(j + 1);
    }
    let j3 = match skip_value(v, i) {
        None => {
            return None;
        },
        Some(j3) => j3,
    };
    let j4 = skip_ws(v, j3);
    if j4 < v.len() && v[j4] == ',' {
        skip_array_rest(v, j4 + 1)
    } else if j4 < v.len() && v[j4] == ']' {
        Some(j4 + 1)
    } else {
        None
    }
}

/// Compares a parsed member name against a known name.
fn name_is(name: &Vec<char>, lit: &Vec<char>) -> (b: bool)
    ensures
        b == (name@ == lit@),
{
    chars_eq(name, lit)
}

/// The role named by the parsed string, if any.
fn role_from_chars(name: &Vec<char>) -> (r: Option<Role>)
    ensures
        r == role_of_name(name@),
{
    let sys: Vec<char> = vec!['s', 'y', 's', 't', 'e', 'm'];
    let usr: Vec<char> = vec!['u', 's', 'e', 'r'];
    let asst: Vec<char> = vec!['a', 's', 's', 'i', 's', 't', 'a', 'n', 't'];
    proof {
        reveal_strlit("system");
        reveal_strlit("user");
        reveal_strlit("assistant");
        assert(sys@ =~= "system"@);
        assert(usr@ =~= "user"@);
        assert(asst@ =~= "assistant"@);
    }
    if chars_eq(name, &sys) {
        Some(Role::System)
    } else if chars_eq(name, &usr) {
        Some(Role::User)
    } else if chars_eq(name, &asst) {
        Some(Role::Assistant)
    } else {
        None
    }
}

/// The message members read so far.
struct MsgAcc {
    role: Option<Role>,
    content: Option<String>,
}

/// The mathematical value of a [`MsgAcc`].
spec fn msg_acc_view(a: MsgAcc) -> MsgFields {
    MsgFields {
        role: a.role,
        content: match a.content {
            Some(c) => Some(c@),
            None => None,
        },
    }
}

/// Reads the members of a message object from `i` on.
fn parse_message_members(v: &Vec<char>, i: usize, acc: MsgAcc) -> (r: Option<(MsgAcc, usize)>)
    requires
        i <= v@.len(),
    ensures
        ({
            let sp = sp_message_members(v@, i as int, msg_acc_view(acc));
            match r {
                None => sp is None,
                Some(p) => sp matches Some(q) && q.0 == msg_acc_view(p.0) && q.1 == p.1 as int && i
                    < p.1 <= v@.len(),
            }
        }),
    decreases v@.len() - i,
{
    let j = skip_ws(v, i);
    let (name, j1) = match parse_string(v, j) {
        None => {
            return None;
        },
        Some(p) => p,
    };
    let j2 = skip_ws(v, j1);
    if !(j2 < v.len() && v[j2] == ':') {
        return None;
    }
    let vpos = j2 + 1;
    let role_lit: Vec<char> = vec!['r', 'o', 'l', 'e'];
    let content_lit: Vec<char> = vec!['c', 'o', 'n', 't', 'e', 'n', 't'];
    proof {
        reveal_strlit("role");
        reveal_strlit("content");
        assert(role_lit@ =~= "role"@);
        assert(content_lit@ =~= "content"@);
    }
    let step: Option<(MsgAcc, usize)> = if name_is(&name, &role_lit) {
        if acc.role.is_some() {
            None
        } else {
            let jw = skip_ws(v, vpos);
            match parse_string(v, jw) {
                None => None,
                Some((rn, j3)) => match role_from_chars(&rn) {
                    None => None,
                    Some(role) => Some((MsgAcc { role: Some(role), content: acc.content }, j3)),
                },
            }
        }
    } else if name_is(&name, &content_lit) {
        if acc.content.is_some() {
            None
        } else {
            let jw = skip_ws(v, vpos);
            match parse_string(v, jw) {
                None => None,
                Some((c, j3)) => Some(
                    (MsgAcc { role: acc.role, content: Some(chars_string(&c)) }, j3),
                ),
            }
        }
    } else {
        match skip_value(v, vpos) {
            None => None,
            Some(j3) => Some((acc, j3)),
        }
    };
    let (acc2, j3) = match step {
        None => {
            return None;
        },
        Some(p) => p,
    };
    let j4 = skip_ws(v, j3);
    if j4 < v.len() && v[j4] == ',' {
        parse_message_members(v, j4 + 1, acc2)
    } else if j4 < v.len() && v[j4] == '}' {
        Some((acc2, j4 + 1))
    } else {
        None
    }
}

/// Reads the message object at `i`.
fn parse_message_obj(v: &Vec<char>, i: usize) -> (r: Option<(Message, usize)>)
    requires
        i <= v@.len(),
    ensures
        ({
            let sp = sp_message_obj(v@, i as int);
            match r {
                None => sp is None,
                Some(p) => sp matches Some(q) && q.0 == p.0@ && q.1 == p.1 as int && i < p.1
                    <= v@.len(),
            }
        }),
{
    let i0 = skip_ws(v, i);
    if !(i0 < v.len() && v[i0] == '{') {
        return None;
    }
    let j = skip_ws(v, i0 + 1);
    let fini: Option<(MsgAcc, usize)> = if j < v.len() && v[j] == '}' {
        Some((MsgAcc { role: None, content: None }, j + 1))
    } else {
        parse_message_members(v, i0 + 1, MsgAcc { role: None, content: None })
    };
    match fini {
        None => None,
        Some((acc, end)) => match acc.role {
            None => None,
            Some(role) => match acc.content {
                None => None,
                Some(content) => Some((Message { role, content }, end)),
            },
        },
    }
}

/// The choice members read so far.
struct ChoiceAcc {
    has_index: bool,
    message: Option<Message>,
    has_finish: bool,
}

/// The mathematical value of a [`ChoiceAcc`].
spec fn choice_acc_view(a: ChoiceAcc) -> ChoiceFields {
    ChoiceFields {
        has_index: a.has_index,
        message: match a.message {
            Some(m) => Some(m@),
            None => None,
        },
        has_finish: a.has_finish,
    }
}

/// Reads the members of a choice object from `i` on.
fn parse_choice_members(v: &Vec<char>, i: usize, acc: ChoiceAcc) -> (r: Option<(ChoiceAcc, usize)>)
    requires
        i <= v@.len(),
    ensures
        ({
            let sp = sp_choice_members(v@, i as int, choice_acc_view(acc));
            match r {
                None => sp is None,
                Some(p) => sp matches Some(q) && q.0 == choice_acc_view(p.0) && q.1 == p.1 as int
                    && i < p.1 <= v@.len(),
            }
        }),
    decreases v@.len() - i,
{
    let j = skip_ws(v, i);
    let (name, j1) = match parse_string(v, j) {
        None => {
            return None;
        },
        Some(p) => p,
    };
    let j2 = skip_ws(v, j1);
    if !(j2 < v.len() && v[j2] == ':') {
        return None;
    }
    let vpos = j2 + 1;
    let index_lit: Vec<char> = vec!['i', 'n', 'd', 'e', 'x'];
    let message_lit: Vec<char> = vec!['m', 'e', 's', 's', 'a', 'g', 'e'];
    let finish_lit: Vec<char> = vec![
        'f',
        'i',
        'n',
        'i',
        's',
        'h',
        '_',
        'r',
        'e',
        'a',
        's',
        'o',
        'n',
    ];
    proof {
        reveal_strlit("index");
        reveal_strlit("message");
        reveal_strlit("finish_reason");
        assert(index_lit@ =~= "index"@);
        assert(message_lit@ =~= "message"@);
        assert(finish_lit@ =~= "finish_reason"@);
    }
    let step: Option<(ChoiceAcc, usize)> = if name_is(&name, &index_lit) {
        if acc.has_index {
            None
        } else {
            let jw = skip_ws(v, vpos);
            match parse_u64(v, jw) {
                None => None,
                Some((_n, j3)) => Some(
                    (
                        ChoiceAcc { has_index: true, message: acc.message, has_finish: acc.has_finish },
                        j3,
                    ),
                ),
            }
        }
    } else if name_is(&name, &message_lit) {
        if acc.message.is_some() {
            None
        } else {
            match parse_message_obj(v, vpos) {
                None => None,
                Some((m, j3)) => Some(
                    (
                        ChoiceAcc {
                            has_index: acc.has_index,
                            message: Some(m),
                            has_finish: acc.has_finish,
                        },
                        j3,
                    ),
                ),
            }
        }
    } else if name_is(&name, &finish_lit) {
        if acc.has_finish {
            None
        } else {
            let jw = skip_ws(v, vpos);
            match parse_string(v, jw) {
                None => None,
                Some((_fr, j3)) => Some(
                    (
                        ChoiceAcc { has_index: acc.has_index, message: acc.message, has_finish: true },
                        j3,
                    ),
                ),
            }
        }
    } else {
        match skip_value(v, vpos) {
            None => None,
            Some(j3) => Some((acc, j3)),
        }
    };
    let (acc2, j3) = match step {
        None => {
            return None;
        },
        Some(p) => p,
    };
    let j4 = skip_ws(v, j3);
    if j4 < v.len() && v[j4] == ',' {
        parse_choice_members(v, j4 + 1, acc2)
    } else if j4 < v.len() && v[j4] == '}' {
        Some((acc2, j4 + 1))
    } else {
        None
    }
}

/// Reads the choice object at `i`, yielding its message.
fn parse_choice_obj(v: &Vec<char>, i: usize) -> (r: Option<(Message, usize)>)
    requires
        i <= v@.len(),
    ensures
        ({
            let sp = sp_choice_obj(v@, i as int);
            match r {
                None => sp is None,
                Some(p) => sp matches Some(q) && q.0 == p.0@ && q.1 == p.1 as int && i < p.1
                    <= v@.len(),
            }
        }),
{
    let i0 = skip_ws(v, i);
    if !(i0 < v.len() && v[i0] == '{') {
        return None;
    }
    let j = skip_ws(v, i0 + 1);
    let fini: Option<(ChoiceAcc, usize)> = if j < v.len() && v[j] == '}' {
        Some((ChoiceAcc { has_index: false, message: None, has_finish: false }, j + 1))
    } else {
        parse_choice_members(v, i0 + 1, ChoiceAcc { has_index: false, message: None, has_finish: false })
    };
    match fini {
        None => None,
        Some((acc, end)) => {
            if acc.has_index && acc.has_finish {
                match acc.message {
                    None => None,
                    Some(m) => Some((m, end)),
                }
            } else {
                None
            }
        },
    }
}

/// Reads one or more comma-separated choices and the closing `]`.
fn parse_choice_array(v: &Vec<char>, i: usize) -> (r: Option<(Vec<Message>, usize)>)
    requires
        i <= v@.len(),
    ensures
        ({
            let sp = sp_choice_array(v@, i as int);
            match r {
                None => sp is None,
                Some(p) => sp matches Some(q) && q.0 == msg_views(p.0@) && q.1 == p.1 as int && i
                    < p.1 <= v@.len(),
            }
        }),
    decreases v@.len() - i,
{
    let (m, j) = match parse_choice_obj(v, i) {
        None => {
            return None;
        },
        Some(p) => p,
    };
    let j1 = skip_ws(v, j);
    if j1 < v.len() && v[j1] == ',' {
        match parse_choice_array(v, j1 + 1) {
            None => None,
            Some((rest, k)) => {
                let mut rest = rest;
                let ghost oldr = rest@;
                rest.insert(0, m);
                proof {
                    assert(msg_views(rest@) =~= seq![m@] + msg_views(oldr));
                }
                Some((rest, k))
            },
        }
    } else if j1 < v.len() && v[j1] == ']' {
        let mut one: Vec<Message> = Vec::new();
        one.push(m);
        proof {
            assert(msg_views(one@) =~= seq![m@]);
        }
        Some((one, j1 + 1))
    } else {
        None
    }
}

/// Reads the choices array at `i`.
fn parse_choices_value(v: &Vec<char>, i: usize) -> (r: Option<(Vec<Message>, usize)>)
    requires
        i <= v@.len(),
    ensures
        ({
            let sp = sp_choices_value(v@, i as int);
            match r {
                None => sp is None,
                Some(p) => sp matches Some(q) && q.0 == msg_views(p.0@) && q.1 == p.1 as int && i
                    < p.1 <= v@.len(),
            }
        }),
{
    let i0 = skip_ws(v, i);
    if !(i0 < v.len() && v[i0] == '[') {
        return None;
    }
    let j = skip_ws(v, i0 + 1);
    if j < v.len() && v[j] == ']' {
        let none: Vec<Message> = Vec::new();
        proof {
            assert(msg_views(none@) =~= Seq::<MsgView>::empty());
        }
        Some((none, j + 1))
    } else {
        parse_choice_array(v, i0 + 1)
    }
}

/// The usage members read so far.
struct UsageAcc {
    has_prompt: bool,
    has_completion: bool,
    has_total: bool,
}

/// The mathematical value of a [`UsageAcc`].
spec fn usage_acc_view(a: UsageAcc) -> UsageFields {
    UsageFields {
        has_prompt: a.has_prompt,
        has_completion: a.has_completion,
        has_total: a.has_total,
    }
}

/// Reads the members of the usage object from `i` on.
fn parse_usage_members(v: &Vec<char>, i: usize, acc: UsageAcc) -> (r: Option<(UsageAcc, usize)>)
    requires
        i <= v@.len(),
    ensures
        ({
            let sp = sp_usage_members(v@, i as int, usage_acc_view(acc));
            match r {
                None => sp is None,
                Some(p) => sp matches Some(q) && q.0 == usage_acc_view(p.0) && q.1 == p.1 as int
                    && i < p.1 <= v@.len(),
            }
        }),
    decreases v@.len() - i,
{
    let j = skip_ws(v, i);
    let (name, j1) = match parse_string(v, j) {
        None => {
            return None;
        },
        Some(p) => p,
    };
    let j2 = skip_ws(v, j1);
    if !(j2 < v.len() && v[j2] == ':') {
        return None;
    }
    let vpos = j2 + 1;
    let prompt_lit: Vec<char> = vec![
        'p',
        'r',
        'o',
        'm',
        'p',
        't',
        '_',
        't',
        'o',
        'k',
        'e',
        'n',
        's',
    ];
    let completion_lit: Vec<char> = vec![
        'c',
        'o',
        'm',
        'p',
        'l',
        'e',
        't',
        'i',
        'o',
        'n',
        '_',
        't',
        'o',
        'k',
        'e',
        'n',
        's',
    ];
    let total_lit: Vec<char> = vec!['t', 'o', 't', 'a', 'l', '_', 't', 'o', 'k', 'e', 'n', 's'];
    proof {
        reveal_strlit("prompt_tokens");
        reveal_strlit("completion_tokens");
        reveal_strlit("total_tokens");
        assert(prompt_lit@ =~= "prompt_tokens"@);
        assert(completion_lit@ =~= "completion_tokens"@);
        assert(total_lit@ =~= "total_tokens"@);
    }
    let step: Option<(UsageAcc, usize)> = if name_is(&name, &prompt_lit) {
        if acc.has_prompt {
            None
        } else {
            let jw = skip_ws(v, vpos);
            match parse_u64(v, jw) {
                None => None,
                Some((_n, j3)) => Some(
                    (
                        UsageAcc {
                            has_prompt: true,
                            has_completion: acc.has_completion,
                            has_total: acc.has_total,
                        },
                        j3,
                    ),
                ),
            }
        }
    } else if name_is(&name, &completion_lit) {
        if acc.has_completion {
            None
        } else {
            let jw = skip_ws(v, vpos);
            match parse_u64(v, jw) {
                None => None,
                Some((_n, j3)) => Some(
                    (
                        UsageAcc {
                            has_prompt: acc.has_prompt,
                            has_completion: true,
                            has_total: acc.has_total,
                        },
                        j3,
                    ),
                ),
            }
        }
    } else if name_is(&name, &total_lit) {
        if acc.has_total {
            None
        } else {
            let jw = skip_ws(v, vpos);
            match parse_u64(v, jw) {
                None => None,
                Some((_n, j3)) => Some(
                    (
                        UsageAcc {
                            has_prompt: acc.has_prompt,
                            has_completion: acc.has_completion,
                            has_total: true,
                        },
                        j3,
                    ),
                ),
            }
        }
    } else {
        match skip_value(v, vpos) {
            None => None,
            Some(j3) => Some((acc, j3)),
        }
    };
    let (acc2, j3) = match step {
        None => {
            return None;
        },
        Some(p) => p,
    };
    let j4 = skip_ws(v, j3);
    if j4 < v.len() && v[j4] == ',' {
        parse_usage_members(v, j4 + 1, acc2)
    } else if j4 < v.len() && v[j4] == '}' {
        Some((acc2, j4 + 1))
    } else {
        None
    }
}

/// Reads the usage object at `i`.
fn parse_usage_obj(v: &Vec<char>, i: usize) -> (r: Option<usize>)
    requires
        i <= v@.len(),
    ensures
        ({
            let sp = sp_usage_obj(v@, i as int);
            match r {
                None => sp is None,
                Some(j) => sp == Some(j as int) && i < j <= v@.len(),
            }
        }),
{
    let i0 = skip_ws(v, i);
    if !(i0 < v.len() && v[i0] == '{') {
        return None;
    }
    let j = skip_ws(v, i0 + 1);
    let fini: Option<(UsageAcc, usize)> = if j < v.len() && v[j] == '}' {
        Some((UsageAcc { has_prompt: false, has_completion: false, has_total: false }, j + 1))
    } else {
        parse_usage_members(
            v,
            i0 + 1,
            UsageAcc { has_prompt: false, has_completion: false, has_total: false },
        )
    };
    match fini {
        None => None,
        Some((acc, end)) => {
            if acc.has_prompt && acc.has_completion && acc.has_total {
                Some(end)
            } else {
                None
            }
        },
    }
}

/// The response members read so far.
struct RespAcc {
    has_id: bool,
    has_object: bool,
    has_created: bool,
    choices: Option<Vec<Message>>,
    has_usage: bool,
}

/// The mathematical value of a [`RespAcc`].
spec fn resp_acc_view(a: RespAcc) -> RespFields {
    RespFields {
        has_id: a.has_id,
        has_object: a.has_object,
        has_created: a.has_created,
        choices: match a.choices {
            Some(c) => Some(msg_views(c@)),
            None => None,
        },
        has_usage: a.has_usage,
    }
}

/// Reads the members of the response object from `i` on.
#[verifier::rlimit(60)]
fn parse_resp_members(v: &Vec<char>, i: usize, acc: RespAcc) -> (r: Option<(RespAcc, usize)>)
    requires
        i <= v@.len(),
    ensures
        ({
            let sp = sp_resp_members(v@, i as int, resp_acc_view(acc));
            match r {
                None => sp is None,
                Some(p) => sp matches Some(q) && q.0 == resp_acc_view(p.0) && q.1 == p.1 as int
                    && i < p.1 <= v@.len(),
            }
        }),
    decreases v@.len() - i,
{
    let j = skip_ws(v, i);
    let (name, j1) = match parse_string(v, j) {
        None => {
            return None;
        },
        Some(p) => p,
    };
    let j2 = skip_ws(v, j1);
    if !(j2 < v.len() && v[j2] == ':') {
        return None;
    }
    let vpos = j2 + 1;
    let id_lit: Vec<char> = vec!['i', 'd'];
    let object_lit: Vec<char> = vec!['o', 'b', 'j', 'e', 'c', 't'];
    let created_lit: Vec<char> = vec!['c', 'r', 'e', 'a', 't', 'e', 'd'];
    let choices_lit: Vec<char> = vec!['c', 'h', 'o', 'i', 'c', 'e', 's'];
    let usage_lit: Vec<char> = vec!['u', 's', 'a', 'g', 'e'];
    proof {
        reveal_strlit("id");
        reveal_strlit("object");
        reveal_strlit("created");
        reveal_strlit("choices");
        reveal_strlit("usage");
        assert(id_lit@ =~= "id"@);
        assert(object_lit@ =~= "object"@);
        assert(created_lit@ =~= "created"@);
        assert(choices_lit@ =~= "choices"@);
        assert(usage_lit@ =~= "usage"@);
    }
    let step: Option<(RespAcc, usize)> = if name_is(&name, &id_lit) {
        if acc.has_id {
            None
        } else {
            let jw = skip_ws(v, vpos);
            match parse_string(v, jw) {
                None => None,
                Some((_s, j3)) => Some(
                    (
                        RespAcc {
                            has_id: true,
                            has_object: acc.has_object,
                            has_created: acc.has_created,
                            choices: acc.choices,
                            has_usage: acc.has_usage,
                        },
                        j3,
                    ),
                ),
            }
        }
    } else if name_is(&name, &object_lit) {
        if acc.has_object {
            None
        } else {
            let jw = skip_ws(v, vpos);
            match parse_string(v, jw) {
                None => None,
                Some((_s, j3)) => Some(
                    (
                        RespAcc {
                            has_id: acc.has_id,
                            has_object: true,
                            has_created: acc.has_created,
                            choices: acc.choices,
                            has_usage: acc.has_usage,
                        },
                        j3,
                    ),
                ),
            }
        }
    } else if name_is(&name, &created_lit) {
        if acc.has_created {
            None
        } else {
            let jw = skip_ws(v, vpos);
            match parse_u64(v, jw) {
                None => None,
                Some((_n, j3)) => Some(
                    (
                        RespAcc {
                            has_id: acc.has_id,
                            has_object: acc.has_object,
                            has_created: true,
                            choices: acc.choices,
                            has_usage: acc.has_usage,
                        },
                        j3,
                    ),
                ),
            }
        }
    } else if name_is(&name, &choices_lit) {
        if acc.choices.is_some() {
            None
        } else {
            match parse_choices_value(v, vpos) {
                None => None,
                Some((msgs, j3)) => Some(
                    (
                        RespAcc {
                            has_id: acc.has_id,
                            has_object: acc.has_object,
                            has_created: acc.has_created,
                            choices: Some(msgs),
                            has_usage: acc.has_usage,
                        },
                        j3,
                    ),
                ),
            }
        }
    } else if name_is(&name, &usage_lit) {
        if acc.has_usage {
            None
        } else {
            match parse_usage_obj(v, vpos) {
                None => None,
                Some(j3) => Some(
                    (
                        RespAcc {
                            has_id: acc.has_id,
                            has_object: acc.has_object,
                            has_created: acc.has_created,
                            choices: acc.choices,
                            has_usage: true,
                        },
                        j3,
                    ),
                ),
            }
        }
    } else {
        match skip_value(v, vpos) {
            None => None,
            Some(j3) => Some((acc, j3)),
        }
    };
    let (acc2, j3) = match step {
        None => {
            return None;
        },
        Some(p) => p,
    };
    let j4 = skip_ws(v, j3);
    if j4 < v.len() && v[j4] == ',' {
        parse_resp_members(v, j4 + 1, acc2)
    } else if j4 < v.len() && v[j4] == '}' {
        Some((acc2, j4 + 1))
    } else {
        None
    }
}

/// Reads a whole response body, yielding the choices' messages.
fn parse_response(v: &Vec<char>) -> (r: Option<Vec<Message>>)
    ensures
        ({
            let sp = sp_response(v@);
            match r {
                None => sp is None,
                Some(msgs) => sp matches Some(q) && q == msg_views(msgs@),
            }
        }),
{
    let i0 = skip_ws(v, 0);
    if !(i0 < v.len() && v[i0] == '{') {
        return None;
    }
    let j = skip_ws(v, i0 + 1);
    let fini: Option<(RespAcc, usize)> = if j < v.len() && v[j] == '}' {
        Some(
            (
                RespAcc {
                    has_id: false,
                    has_object: false,
                    has_created: false,
                    choices: None,
                    has_usage: false,
                },
                j + 1,
            ),
        )
    } else {
        parse_resp_members(
            v,
            i0 + 1,
            RespAcc {
                has_id: false,
                has_object: false,
                has_created: false,
                choices: None,
                has_usage: false,
            },
        )
    };
    match fini {
        None => None,
        Some((acc, end)) => {
            if acc.has_id && acc.has_object && acc.has_created && acc.has_usage {
                match acc.choices {
                    None => None,
                    Some(msgs) => {
                        if skip_ws(v, end) == v.len() {
                            Some(msgs)
                        } else {
                            None
                        }
                    },
                }
            } else {
                None
            }
        },
    }
}

/// Why a reply body was rejected.
#[derive(Clone, Copy, Debug, PartialEq, Eq, Structural)]
pub enum DecodeError {
    /// The body is not a JSON text of the expected response shape.
    Malformed,
    /// The body decoded, but its choices array is empty.
    EmptyChoices,
}

/// The diagnostic text persisted when a reply body fails to decode: a
/// marker line, the decode error, a marker line, then the raw body.
pub open spec fn diagnostic_spec(body: Seq<char>) -> Seq<char> {
    "---\nthe body is not a completion response: expected a JSON object holding id, object, created, choices and usage\n---\n"@
        + body
}

/// Builds the decode-failure diagnostic for `body`.
pub fn build_diagnostic(body: &str) -> (r: String)
    ensures
        r@ == diagnostic_spec(body@),
{
    let mut s = String::new();
    s.append(
        "---\nthe body is not a completion response: expected a JSON object holding id, object, created, choices and usage\n---\n",
    );
    s.append(body);
    proof {
        assert(s@ =~= diagnostic_spec(body@));
    }
    s
}

/// Decodes a reply body against the expected response shape: the first
/// choice's message when the body conforms and has at least one choice;
/// `Malformed` when it does not conform; `EmptyChoices` when it
/// conforms with no choice.
pub fn decode_response(body: &str) -> (r: Result<Message, DecodeError>)
    ensures
        ({
            let sp = sp_response(body@);
            match sp {
                None => r == Err::<Message, DecodeError>(DecodeError::Malformed),
                Some(msgs) => if msgs.len() == 0 {
                    r == Err::<Message, DecodeError>(DecodeError::EmptyChoices)
                } else {
                    r matches Ok(m) && m@ == msgs[0]
                },
            }
        }),
{
    let v = str_chars(body);
    match parse_response(&v) {
        None => Err(DecodeError::Malformed),
        Some(msgs) => {
            if msgs.len() == 0 {
                Err(DecodeError::EmptyChoices)
            } else {
                let mut msgs = msgs;
                let m = msgs.remove(0);
                Ok(m)
            }
        },
    }
}

} // verus!
