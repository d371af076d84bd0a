//! Parsing the caller's option surface: an ordered sequence of typed
//! tokens (`key = value` pairs and free-text literals, with optional
//! `,` or `;` separators) into a typed option bag. Unrecognised keys
//! are a parse error.

use vstd::prelude::*;
use crate::orchestrate::MacroOptions;
use crate::text::{chars_eq, str_chars};

verus! {

/// One token of the caller's option list.
pub enum OptToken {
    /// An identifier, expected to name a recognised option key.
    Key(String),
    /// The `=` between a key and its value.
    Eq,
    /// An integer literal value.
    Int(u64),
    /// A string literal value.
    Str(String),
    /// A `,` separator.
    Comma,
    /// A `;` separator.
    Semi,
}

/// Why an option list was rejected.
#[derive(Clone, Copy, Debug, PartialEq, Eq, Structural)]
pub enum OptError {
    /// An entry begins with something other than a key or a string
    /// literal.
    UnexpectedToken,
    /// A key is not followed by `=` and a value.
    ExpectedEq,
    /// The key names no recognised option.
    UnknownKey,
    /// The value is not the string literal this key takes.
    ExpectedStringValue,
    /// The value is not the integer literal this key takes.
    ExpectedIntValue,
}

/// The mathematical value of a [`MacroOptions`].
pub ghost struct OptsView {
    pub model: Option<Seq<char>>,
    pub prompt: Option<Seq<char>>,
    pub seed: Option<u64>,
    pub max_completion_tokens: Option<u64>,
}

impl View for MacroOptions {
    type V = OptsView;

    open spec fn view(&self) -> OptsView {
        OptsView {
            model: match self.model {
                Some(m) => Some(m@),
                None => None,
            },
            prompt: match self.prompt {
                Some(p) => Some(p@),
                None => None,
            },
            seed: self.seed,
            max_completion_tokens: self.max_completion_tokens,
        }
    }
}

/// Options with nothing set.
pub open spec fn empty_opts() -> OptsView {
    OptsView { model: None, prompt: None, seed: None, max_completion_tokens: None }
}

/// `toks` with one leading `,` or `;` separator dropped.
pub open spec fn skip_sep(toks: Seq<OptToken>) -> Seq<OptToken> {
    if toks.len() > 0 && (toks[0] is Comma || toks[0] is Semi) {
        toks.skip(1)
    } else {
        toks
    }
}

/// The option bag read from `toks` with `acc` already accumulated: each
/// entry is a free-text string literal (kept as the supplementary
/// prompt) or `key = value` with `model` taking a string and `seed` and
/// `max_completion_tokens` an integer; a repeated entry overwrites the
/// earlier one; one `,` or `;` may follow each entry.
pub open spec fn parse_opts_from(toks: Seq<OptToken>, acc: OptsView) -> Result<OptsView, OptError>
    decreases toks.len(),
{
    if toks.len() == 0 {
        Ok(acc)
    } else {
        match toks[0] {
            OptToken::Str(s) => parse_opts_from(
                skip_sep(toks.skip(1)),
                OptsView { prompt: Some(s@), ..acc },
            ),
            OptToken::Key(k) => {
                if !(toks.len() >= 2 && toks[1] is Eq) {
                    Err(OptError::ExpectedEq)
                } else if k@ == "model"@ {
                    if toks.len() >= 3 {
                        match toks[2] {
                            OptToken::Str(v) => parse_opts_from(
                                skip_sep(toks.skip(3)),
                                OptsView { model: Some(v@), ..acc },
                            ),
                            _ => Err(OptError::ExpectedStringValue),
                        }
                    } else {
                        Err(OptError::ExpectedStringValue)
                    }
                } else if k@ == "seed"@ {
                    if toks.len() >= 3 {
                        match toks[2] {
                            OptToken::Int(v) => parse_opts_from(
                                skip_sep(toks.skip(3)),
                                OptsView { seed: Some(v), ..acc },
                            ),
                            _ => Err(OptError::ExpectedIntValue),
                        }
                    } else {
                        Err(OptError::ExpectedIntValue)
                    }
                } else if k@ == "max_completion_tokens"@ {
                    if toks.len() >= 3 {
                        match toks[2] {
                            OptToken::Int(v) => parse_opts_from(
                                skip_sep(toks.skip(3)),
                                OptsView { max_completion_tokens: Some(v), ..acc },
                            ),
                            _ => Err(OptError::ExpectedIntValue),
                        }
                    } else {
                        Err(OptError::ExpectedIntValue)
                    }
                } else {
                    Err(OptError::UnknownKey)
                }
            },
            _ => Err(OptError::UnexpectedToken),
        }
    }
}

/// The option bag read from a whole token list.
pub open spec fn parse_options_spec(toks: Seq<OptToken>) -> Result<OptsView, OptError> {
    parse_opts_from(toks, empty_opts())
}

/// Compares two strings character for character.
fn str_eq(a: &str, b: &str) -> (r: bool)
    ensures
        r == (a@ == b@),
{
    let va = str_chars(a);
    let vb = str_chars(b);
    chars_eq(&va, &vb)
}

/// Parses the caller's option tokens into a typed option bag.
pub fn parse_options(tokens: &Vec<OptToken>) -> (r: Result<MacroOptions, OptError>)
    ensures
        match r {
            Ok(o) => parse_options_spec(tokens@) == Ok::<OptsView, OptError>(o@),
            Err(e) => parse_options_spec(tokens@) == Err::<OptsView, OptError>(e),
        },
{
    let mut acc = MacroOptions::empty();
    let mut i: usize = 0;
    proof {
        assert(tokens@.skip(0) =~= tokens@);
        assert(acc@ == empty_opts());
    }
    while i < tokens.len()
        invariant
            i <= tokens@.len(),
            parse_options_spec(tokens@) == parse_opts_from(tokens@.skip(i as int), acc@),
        decreases tokens@.len() - i,
    {
        let ghost before = tokens@.skip(i as int);
        proof {
            assert(before[0] == tokens@[i as int]);
            if i + 1 < tokens@.len() {
                assert(before[1] == tokens@[i as int + 1]);
            }
            if i + 2 < tokens@.len() {
                assert(before[2] == tokens@[i as int + 2]);
            }
        }
        match &tokens[i] {
            OptToken::Str(s) => {
                acc.prompt = Some(s.clone());
                proof {
                    assert(before.skip(1) =~= tokens@.skip(i as int + 1));
                }
                i = i + 1;
            },
            OptToken::Key(k) => {
                if !(i + 1 < tokens.len() && matches!(&tokens[i + 1], OptToken::Eq)) {
                    return Err(OptError::ExpectedEq);
                }
                let value_is_str = i + 2 < tokens.len() && matches!(&tokens[i + 2], OptToken::Str(_));
                let value_is_int = i + 2 < tokens.len() && matches!(&tokens[i + 2], OptToken::Int(_));
                if str_eq(k.as_str(), "model") {
                    if !value_is_str {
                        return Err(OptError::ExpectedStringValue);
                    }
                    match &tokens[i + 2] {
                        OptToken::Str(v) => {
                            acc.model = Some(v.clone());
                        },
                        _ => {},
                    }
                    proof {
                        assert(before.skip(3) =~= tokens@.skip(i as int + 3));
                    }
                    i = i + 3;
                } else if str_eq(k.as_str(), "seed") {
                    if !value_is_int {
                        return Err(OptError::ExpectedIntValue);
                    }
                    match &tokens[i + 2] {
                        OptToken::Int(v) => {
                            acc.seed = Some(*v);
                        },
                        _ => {},
                    }
                    proof {
                        assert(before.skip(3) =~= tokens@.skip(i as int + 3));
                    }
                    i = i + 3;
                } else if str_eq(k.as_str(), "max_completion_tokens") {
                    if !value_is_int {
                        return Err(OptError::ExpectedIntValue);
                    }
                    match &tokens[i + 2] {
                        OptToken::Int(v) => {
                            acc.max_completion_tokens = Some(*v);
                        },
                        _ => {},
                    }
                    proof {
                        assert(before.skip(3) =~= tokens@.skip(i as int + 3));
                    }
                    i = i + 3;
                } else {
                    return Err(OptError::UnknownKey);
                }
            },
            _ => {
                return Err(OptError::UnexpectedToken);
            },
        }
        proof {
            assert(parse_options_spec(tokens@) == parse_opts_from(
                skip_sep(tokens@.skip(i as int)),
                acc@,
            ));
        }
        let sep = i < tokens.len() && (matches!(&tokens[i], OptToken::Comma) || matches!(
            &tokens[i],
            OptToken::Semi,
        ));
        if sep {
            proof {
                assert(tokens@.skip(i as int)[0] == tokens@[i as int]);
                assert(tokens@.skip(i as int).skip(1) =~= tokens@.skip(i as int + 1));
            }
            i = i + 1;
        } else {
            proof {
                if i < tokens@.len() {
                    assert(tokens@.skip(i as int)[0] == tokens@[i as int]);
                }
                assert(skip_sep(tokens@.skip(i as int)) == tokens@.skip(i as int));
            }
        }
    }
    proof {
        assert(tokens@.skip(tokens@.len() as int) =~= Seq::<OptToken>::empty());
    }
    Ok(acc)
}

} // verus!
