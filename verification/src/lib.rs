//! A cache-and-dispatch pipeline for delegating a unit of text-generation
//! work to a remote completion service.
//!
//! Repeated invocations with identical input content never re-issue the
//! network call: results are kept in a content-addressed cache keyed by a
//! deterministic 64-bit hash of the input. The library covers key
//! derivation, the cache's lookup/store semantics, the request/response
//! JSON protocol (including error capture on malformed replies), the
//! extraction of fenced code blocks from a possibly markdown-wrapped
//! reply, and the orchestration of those pieces. The surrounding glue
//! (reading source text, environment variables, the HTTP transport)
//! stays outside the library and hands it plain values.

mod cache;
mod digits;
mod extract;
mod hash;
mod msg;
mod options;
mod orchestrate;
mod request;
mod response;
mod text;

pub use request::bound_seed;
pub use request::build_request_body;
pub use request::encode_request;
pub use request::seed_mod;

pub use msg::Message;
pub use msg::MsgView;
pub use msg::Role;
pub use msg::msg_views;
pub use msg::role_name;
pub use msg::role_of_name;
pub use options::OptError;
pub use options::OptToken;
pub use options::OptsView;
pub use options::parse_options;
pub use options::parse_options_spec;
pub use orchestrate::MacroOptions;
pub use orchestrate::Outcome;
pub use orchestrate::PlanStep;
pub use orchestrate::PreparedRequest;
pub use orchestrate::begin;
pub use orchestrate::build_messages;
pub use orchestrate::default_model;
pub use orchestrate::effective_seed;
pub use orchestrate::finish;
pub use orchestrate::is_sentinel;
pub use orchestrate::messages_spec;
pub use orchestrate::model_of;
pub use orchestrate::sentinel;
pub use response::DecodeError;
pub use response::build_diagnostic;
pub use response::decode_response;
pub use response::diagnostic_spec;
pub use response::sp_response;

pub use cache::ResponseCache;
pub use cache::cache_file_name;
pub use cache::cache_file_name_spec;
pub use cache::lemma_store_then_load;
pub use cache::spec_load;
pub use cache::spec_store;
pub use extract::assemble_payload;
pub use extract::extract_rust_codes;
pub use extract::extract_spec;
pub use extract::payload_spec;
pub use extract::remove_markdown;
pub use extract::remove_markdown_spec;
pub use hash::hash_content;
pub use hash::key_of;
pub use hash::lemma_derive_deterministic;
