//! The pipeline orchestrator: derive key, short-circuit on a cache hit,
//! otherwise prepare the remote call; then persist and post-process the
//! call's outcome.
//!
//! The outside world performs the call itself (it is the only step the
//! library cannot do on plain values): [`begin`] decides everything up
//! to the call and hands back either a terminal result or the prepared
//! request, and [`finish`] turns the raw transport outcome into the
//! terminal result, writing the cache as the protocol demands.

use vstd::prelude::*;
use crate::cache::{ResponseCache, spec_load, spec_store};
use crate::extract::{assemble_payload, payload_spec};
use crate::hash::{hash_content, key_of};
use crate::msg::{Message, MsgView, Role, msg_views};
use crate::request::{build_request_body, encode_request};
use crate::response::{DecodeError, build_diagnostic, decode_response, diagnostic_spec, sp_response};
use crate::text::{chars_eq, str_chars};

verus! {

/// Caller-supplied generation options: the model to use, a
/// supplementary instruction, the reproducibility seed, and the reply
/// token limit. Every field is optional.
#[derive(Clone, Debug, PartialEq, Eq)]
pub struct MacroOptions {
    pub model: Option<String>,
    pub prompt: Option<String>,
    pub seed: Option<u64>,
    pub max_completion_tokens: Option<u64>,
}

impl MacroOptions {
    /// Options with nothing set.
    pub fn empty() -> (r: MacroOptions)
        ensures
            r.model is None,
            r.prompt is None,
            r.seed is None,
            r.max_completion_tokens is None,
    {
        MacroOptions { model: None, prompt: None, seed: None, max_completion_tokens: None }
    }
}

/// The model identifier used when the caller names none.
pub open spec fn default_model() -> Seq<char> {
    "gpt-4o"@
}

/// The model the request is made with.
pub open spec fn model_of(opts: MacroOptions) -> Seq<char> {
    match opts.model {
        Some(m) => m@,
        None => default_model(),
    }
}

/// The seed the request is made with (before bounding): the caller's
/// seed, or the content's derived key when none is given.
pub open spec fn effective_seed(opts: MacroOptions, content: Seq<char>) -> u64 {
    match opts.seed {
        Some(s) => s,
        None => key_of(content),
    }
}

/// The credential value that disables the pipeline instead of
/// authorising it.
pub open spec fn sentinel() -> Seq<char> {
    "DEBUG"@
}

/// True when `credential` is the disabling sentinel.
pub fn is_sentinel(credential: &str) -> (b: bool)
    ensures
        b == (credential@ == sentinel()),
{
    let v = str_chars(credential);
    let lit: Vec<char> = vec!['D', 'E', 'B', 'U', 'G'];
    proof {
        reveal_strlit("DEBUG");
        assert(lit@ =~= "DEBUG"@);
    }
    chars_eq(&v, &lit)
}

/// The message sequence of a call: the instruction first, then the
/// input content as the sole user message.
pub open spec fn messages_spec(instruction: Seq<char>, content: Seq<char>) -> Seq<MsgView> {
    seq![
        MsgView { role: Role::System, content: instruction },
        MsgView { role: Role::User, content: content },
    ]
}

/// Builds the message sequence of a call.
pub fn build_messages(instruction: &str, content: &str) -> (r: Vec<Message>)
    ensures
        msg_views(r@) == messages_spec(instruction@, content@),
{
    let mut r: Vec<Message> = Vec::new();
    r.push(Message { role: Role::System, content: instruction.to_owned() });
    r.push(Message { role: Role::User, content: content.to_owned() });
    proof {
        assert(msg_views(r@) =~= messages_spec(instruction@, content@));
    }
    r
}

/// A remote call the orchestrator has prepared: the JSON request body
/// to transmit, and the storage key under which the reply (or a decode
/// diagnostic) is to be persisted.
pub struct PreparedRequest {
    pub body: String,
    pub key: u64,
}

/// What [`begin`] decides: a terminal result reached without network
/// access, or a prepared remote call.
pub enum PlanStep {
    /// The input content is unavailable: a benign no-op.
    NoSource,
    /// A body was already cached for this content; the payload is
    /// derived from it and no call is made.
    CacheHit(String),
    /// No credential is present: a surfaced failure.
    MissingCredential,
    /// The credential is the sentinel: a no-op without a call and
    /// without a cache write.
    Disabled,
    /// No cached body: the call must be made with this request.
    CallRemote(PreparedRequest),
}

/// Decides the pipeline's course before any network access, in order:
/// no content is a no-op; a cached body short-circuits to its payload
/// without a call; a missing credential fails; the sentinel credential
/// disables the call; otherwise the remote request is prepared with the
/// instruction and content as messages and the caller's options.
///
/// Law (cache short-circuit): whenever a body is cached for the
/// content, the result is `CacheHit` — never `CallRemote` — and `begin`
/// takes the cache immutably, so a hit cannot write.
pub fn begin(
    instruction: &str,
    content: Option<&str>,
    credential: Option<&str>,
    opts: &MacroOptions,
    cache: &ResponseCache,
) -> (r: PlanStep)
    ensures
        (r is NoSource) == (content is None),
        content matches Some(c) ==> (spec_load(cache@, c@) matches Some(b) ==> (r matches
            PlanStep::CacheHit(p) && p@ == payload_spec(b))),
        content matches Some(c) ==> (spec_load(cache@, c@) is None && credential is None ==> r is
            MissingCredential),
        content matches Some(c) ==> spec_load(cache@, c@) is None ==> (credential matches Some(k)
            && k@ == sentinel() ==> r is Disabled),
        content matches Some(c) ==> spec_load(cache@, c@) is None ==> (credential matches Some(k)
            && k@ != sentinel() ==> (r matches PlanStep::CallRemote(req) && req.key == key_of(c@)
            && req.body@ == encode_request(
            model_of(*opts),
            messages_spec(instruction@, c@),
            effective_seed(*opts, c@),
            opts.max_completion_tokens,
        ))),
{
    let c = match content {
        None => {
            return PlanStep::NoSource;
        },
        Some(c) => c,
    };
    match cache.load(c) {
        Some(b) => {
            return PlanStep::CacheHit(assemble_payload(b.as_str()));
        },
        None => {},
    }
    let k = match credential {
        None => {
            return PlanStep::MissingCredential;
        },
        Some(k) => k,
    };
    if is_sentinel(k) {
        return PlanStep::Disabled;
    }
    let model: &str = match &opts.model {
        Some(m) => m.as_str(),
        None => "gpt-4o",
    };
    let messages = build_messages(instruction, c);
    let seed = match opts.seed {
        Some(s) => s,
        None => hash_content(c),
    };
    let body = build_request_body(model, &messages, seed, opts.max_completion_tokens);
    PlanStep::CallRemote(PreparedRequest { body, key: hash_content(c) })
}

/// A finished pipeline run.
pub enum Outcome {
    /// The reply decoded; its first choice's payload, extracted.
    Produced(String),
    /// The transport failed before a reply body was read.
    TransportFailure(String),
    /// The reply body did not decode; carries the diagnostic that was
    /// persisted at the content's cache location.
    DecodeFailure(String),
    /// The reply decoded but offered no choice.
    EmptyChoices,
}

/// Completes a pipeline run from the transport's outcome: a transport
/// error is surfaced unchanged; a reply that fails to decode persists a
/// diagnostic at the content's cache location and fails; a decoded
/// reply with no choice fails without writing; otherwise the first
/// choice's raw content is persisted (before any extraction, so the
/// cache holds the unprocessed reply) and the extracted payload is
/// produced.
pub fn finish(cache: &mut ResponseCache, content: &str, call_result: Result<String, String>) -> (r:
    Outcome)
    ensures
        call_result matches Err(e) ==> r matches Outcome::TransportFailure(t) && t == e && final(cache)@ == old(cache)@,
        call_result matches Ok(raw) ==> match sp_response(raw@) {
            None => r matches Outcome::DecodeFailure(d) && d@ == diagnostic_spec(raw@) && final(cache)@ == spec_store(old(cache)@, content@, diagnostic_spec(raw@)),
            Some(msgs) => if msgs.len() == 0 {
                r is EmptyChoices && final(cache)@ == old(cache)@
            } else {
                r matches Outcome::Produced(p) && p@ == payload_spec(msgs[0].content)
                    && final(cache)@ == spec_store(old(cache)@, content@, msgs[0].content)
            },
        },
{
    let raw = match call_result {
        Err(e) => {
            return Outcome::TransportFailure(e);
        },
        Ok(raw) => raw,
    };
    match decode_response(raw.as_str()) {
        Err(DecodeError::Malformed) => {
            let diag = build_diagnostic(raw.as_str());
            cache.store(content, diag.clone());
            Outcome::DecodeFailure(diag)
        },
        Err(DecodeError::EmptyChoices) => Outcome::EmptyChoices,
        Ok(m) => {
            let payload = assemble_payload(m.content.as_str());
            cache.store(content, m.content);
            Outcome::Produced(payload)
        },
    }
}

} // verus!
