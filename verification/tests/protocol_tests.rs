use hey_chat_gpt::{
    DecodeError, Message, Role, bound_seed, build_diagnostic, build_request_body, decode_response,
    hash_content,
};

#[test]
fn key_derivation_is_deterministic() {
    let a = hash_content("fn main() {}");
    let b = hash_content("fn main() {}");
    assert_eq!(a, b);
}

#[test]
fn bound_seed_reduces_large_seeds() {
    assert_eq!(bound_seed(9223372036854775807), 0);
    assert_eq!(bound_seed(9223372036854775808), 1);
    assert_eq!(bound_seed(u64::MAX), 1);
    assert_eq!(bound_seed(20), 20);
    assert_eq!(bound_seed(0), 0);
}

#[test]
fn request_body_without_token_limit() {
    let messages = vec![
        Message { role: Role::System, content: "s".to_string() },
        Message { role: Role::User, content: "u".to_string() },
    ];
    let body = build_request_body("gpt-4o", &messages, 7, None);
    assert_eq!(
        body,
        "{\"model\":\"gpt-4o\",\"messages\":[\
         {\"role\":\"system\",\"content\":\"s\"},\
         {\"role\":\"user\",\"content\":\"u\"}],\"seed\":7}"
    );
}

#[test]
fn request_body_escapes_content() {
    let messages = vec![Message { role: Role::User, content: "a\"b\\c\nd".to_string() }];
    let body = build_request_body("m", &messages, 0, None);
    assert_eq!(
        body,
        "{\"model\":\"m\",\"messages\":[\
         {\"role\":\"user\",\"content\":\"a\\\"b\\\\c\\nd\"}],\"seed\":0}"
    );
}

#[test]
fn request_body_escapes_control_characters() {
    let messages = vec![Message { role: Role::User, content: "x\u{0001}y".to_string() }];
    let body = build_request_body("m", &messages, 0, None);
    assert!(body.contains("x\\u0001y"));
}

#[test]
fn decode_accepts_a_conforming_reply() {
    let raw = "{ \"id\": \"chatcmpl-9\", \"object\": \"chat.completion\", \"created\": 123, \
               \"choices\": [ { \"index\": 0, \"message\": { \"role\": \"assistant\", \
               \"content\": \"hello\\nworld\" }, \"finish_reason\": \"stop\" } ], \
               \"usage\": { \"prompt_tokens\": 10, \"completion_tokens\": 20, \
               \"total_tokens\": 30 } }";
    let m = decode_response(raw).unwrap();
    assert_eq!(m.role, Role::Assistant);
    assert_eq!(m.content, "hello\nworld");
}

#[test]
fn decode_takes_the_first_choice() {
    let raw = "{\"id\":\"i\",\"object\":\"o\",\"created\":1,\"choices\":[\
               {\"index\":0,\"message\":{\"role\":\"assistant\",\"content\":\"first\"},\"finish_reason\":\"stop\"},\
               {\"index\":1,\"message\":{\"role\":\"assistant\",\"content\":\"second\"},\"finish_reason\":\"stop\"}],\
               \"usage\":{\"prompt_tokens\":1,\"completion_tokens\":1,\"total_tokens\":2}}";
    let m = decode_response(raw).unwrap();
    assert_eq!(m.content, "first");
}

#[test]
fn decode_rejects_malformed_bodies() {
    assert_eq!(decode_response("not json at all"), Err(DecodeError::Malformed));
    assert_eq!(decode_response(""), Err(DecodeError::Malformed));
    assert_eq!(decode_response("{\"id\":\"i\"}"), Err(DecodeError::Malformed));
}

#[test]
fn decode_rejects_unknown_role() {
    let raw = "{\"id\":\"i\",\"object\":\"o\",\"created\":1,\"choices\":[\
               {\"index\":0,\"message\":{\"role\":\"robot\",\"content\":\"x\"},\"finish_reason\":\"stop\"}],\
               \"usage\":{\"prompt_tokens\":1,\"completion_tokens\":1,\"total_tokens\":2}}";
    assert_eq!(decode_response(raw), Err(DecodeError::Malformed));
}

#[test]
fn decode_rejects_numbers_beyond_64_bits() {
    let raw = "{\"id\":\"i\",\"object\":\"o\",\"created\":99999999999999999999,\"choices\":[],\
               \"usage\":{\"prompt_tokens\":1,\"completion_tokens\":1,\"total_tokens\":2}}";
    assert_eq!(decode_response(raw), Err(DecodeError::Malformed));
}

#[test]
fn decode_reports_empty_choices() {
    let raw = "{\"id\":\"i\",\"object\":\"o\",\"created\":1,\"choices\":[],\
               \"usage\":{\"prompt_tokens\":1,\"completion_tokens\":1,\"total_tokens\":2}}";
    assert_eq!(decode_response(raw), Err(DecodeError::EmptyChoices));
}

#[test]
fn decode_handles_string_escapes() {
    let raw = "{\"id\":\"i\",\"object\":\"o\",\"created\":1,\"choices\":[\
               {\"index\":0,\"message\":{\"role\":\"user\",\"content\":\"q\\\"t\\\\b\\/s\\tu\"},\"finish_reason\":\"stop\"}],\
               \"usage\":{\"prompt_tokens\":1,\"completion_tokens\":1,\"total_tokens\":2}}";
    let m = decode_response(raw).unwrap();
    assert_eq!(m.content, "q\"t\\b/s\tu");
}

#[test]
fn diagnostic_wraps_the_raw_body() {
    let d = build_diagnostic("raw body");
    assert_eq!(
        d,
        "---\nthe body is not a completion response: expected a JSON object \
         holding id, object, created, choices and usage\n---\nraw body"
    );
}

#[test]
fn decode_accepts_members_in_any_order() {
    let raw = "{\"usage\":{\"total_tokens\":3,\"prompt_tokens\":1,\"completion_tokens\":2},\
               \"choices\":[{\"finish_reason\":\"stop\",\"message\":{\"content\":\"hi\",\"role\":\"assistant\"},\"index\":0}],\
               \"created\":1,\"object\":\"o\",\"id\":\"i\"}";
    let m = decode_response(raw).unwrap();
    assert_eq!(m.content, "hi");
}

#[test]
fn decode_skips_unknown_members() {
    let raw = "{\"id\":\"i\",\"system_fingerprint\":\"fp_1\",\"object\":\"o\",\"created\":1,\
               \"choices\":[{\"index\":0,\"logprobs\":null,\
               \"message\":{\"role\":\"assistant\",\"content\":\"x\",\"refusal\":null,\"annotations\":[]},\
               \"finish_reason\":\"stop\"}],\
               \"usage\":{\"prompt_tokens\":1,\"completion_tokens\":2,\"total_tokens\":3,\
               \"prompt_tokens_details\":{\"cached_tokens\":0,\"audio_tokens\":0}},\
               \"service_tier\":\"default\"}";
    let m = decode_response(raw).unwrap();
    assert_eq!(m.content, "x");
}

#[test]
fn decode_handles_unicode_escapes() {
    let raw = "{\"id\":\"i\",\"object\":\"o\",\"created\":1,\"choices\":[\
               {\"index\":0,\"message\":{\"role\":\"user\",\"content\":\"\\u0041\\u00e9\\uD83D\\uDE00\"},\"finish_reason\":\"stop\"}],\
               \"usage\":{\"prompt_tokens\":1,\"completion_tokens\":1,\"total_tokens\":2}}";
    let m = decode_response(raw).unwrap();
    assert_eq!(m.content, "A\u{e9}\u{1F600}");
}

#[test]
fn decode_rejects_a_lone_surrogate() {
    let raw = "{\"id\":\"i\",\"object\":\"o\",\"created\":1,\"choices\":[\
               {\"index\":0,\"message\":{\"role\":\"user\",\"content\":\"\\uD83D\"},\"finish_reason\":\"stop\"}],\
               \"usage\":{\"prompt_tokens\":1,\"completion_tokens\":1,\"total_tokens\":2}}";
    assert_eq!(decode_response(raw), Err(DecodeError::Malformed));
}

#[test]
fn decode_rejects_a_duplicate_member() {
    let raw = "{\"id\":\"i\",\"id\":\"j\",\"object\":\"o\",\"created\":1,\"choices\":[],\
               \"usage\":{\"prompt_tokens\":1,\"completion_tokens\":1,\"total_tokens\":2}}";
    assert_eq!(decode_response(raw), Err(DecodeError::Malformed));
}

#[test]
fn decode_rejects_a_missing_member() {
    let raw = "{\"id\":\"i\",\"object\":\"o\",\"choices\":[],\
               \"usage\":{\"prompt_tokens\":1,\"completion_tokens\":1,\"total_tokens\":2}}";
    assert_eq!(decode_response(raw), Err(DecodeError::Malformed));
}

#[test]
fn decode_rejects_a_leading_zero() {
    let raw = "{\"id\":\"i\",\"object\":\"o\",\"created\":01,\"choices\":[],\
               \"usage\":{\"prompt_tokens\":1,\"completion_tokens\":1,\"total_tokens\":2}}";
    assert_eq!(decode_response(raw), Err(DecodeError::Malformed));
}
