use hey_chat_gpt::{
    MacroOptions, Outcome, PlanStep, ResponseCache, begin, bound_seed, finish, hash_content,
};

fn no_opts() -> MacroOptions {
    MacroOptions { model: None, prompt: None, seed: None, max_completion_tokens: None }
}

fn response_with(content_json: &str) -> String {
    let mut s = String::new();
    s.push_str("{\"id\":\"chatcmpl-1\",\"object\":\"chat.completion\",\"created\":1700000000,");
    s.push_str("\"choices\":[{\"index\":0,\"message\":{\"role\":\"assistant\",\"content\":\"");
    s.push_str(content_json);
    s.push_str("\"},\"finish_reason\":\"stop\"}],");
    s.push_str("\"usage\":{\"prompt_tokens\":1,\"completion_tokens\":2,\"total_tokens\":3}}");
    s
}

#[test]
fn fresh_success_caches_raw_reply_and_extracts() {
    let mut cache = ResponseCache::new();
    let step = begin("instruction", Some("x"), Some("sk-real"), &no_opts(), &cache);
    let req = match step {
        PlanStep::CallRemote(req) => req,
        _ => panic!("expected a remote call on a cache miss"),
    };
    assert_eq!(req.key, hash_content("x"));

    let raw = response_with("```rust\\nfn f(){}\\n```");
    let out = finish(&mut cache, "x", Ok(raw));
    match out {
        Outcome::Produced(p) => assert_eq!(p, "fn f(){}\n"),
        _ => panic!("expected a produced payload"),
    }
    // The raw (pre-extraction) reply text is what got cached.
    assert_eq!(cache.load("x"), Some("```rust\nfn f(){}\n```".to_string()));
}

#[test]
fn cache_hit_short_circuits() {
    let mut cache = ResponseCache::new();
    cache.store("x", "```rust\ncached()\n```".to_string());
    let step = begin("instruction", Some("x"), Some("sk-real"), &no_opts(), &cache);
    match step {
        PlanStep::CacheHit(p) => assert_eq!(p, "cached()\n"),
        _ => panic!("expected a cache hit, not a remote call"),
    }
}

#[test]
fn cache_hit_wins_even_without_credential() {
    let mut cache = ResponseCache::new();
    cache.store("x", "body".to_string());
    let step = begin("instruction", Some("x"), None, &no_opts(), &cache);
    match step {
        PlanStep::CacheHit(p) => assert_eq!(p, "body"),
        _ => panic!("the cache is consulted before the credential"),
    }
}

#[test]
fn decode_failure_writes_diagnostic() {
    let mut cache = ResponseCache::new();
    let out = finish(&mut cache, "x", Ok("{\"oops\": true}".to_string()));
    let diag = match out {
        Outcome::DecodeFailure(d) => d,
        _ => panic!("expected a decode failure"),
    };
    assert!(diag.starts_with("---\n"));
    assert!(diag.ends_with("{\"oops\": true}"));
    assert_eq!(cache.load("x"), Some(diag));
}

#[test]
fn disabled_mode_makes_no_call_and_no_write() {
    let cache = ResponseCache::new();
    let step = begin("instruction", Some("x"), Some("DEBUG"), &no_opts(), &cache);
    assert!(matches!(step, PlanStep::Disabled));
    assert_eq!(cache.load("x"), None);
}

#[test]
fn missing_credential_is_surfaced() {
    let cache = ResponseCache::new();
    let step = begin("instruction", Some("x"), None, &no_opts(), &cache);
    assert!(matches!(step, PlanStep::MissingCredential));
}

#[test]
fn missing_content_is_a_noop() {
    let cache = ResponseCache::new();
    let step = begin("instruction", None, Some("sk-real"), &no_opts(), &cache);
    assert!(matches!(step, PlanStep::NoSource));
}

#[test]
fn transport_failure_is_surfaced_unchanged() {
    let mut cache = ResponseCache::new();
    let out = finish(&mut cache, "x", Err("connection refused".to_string()));
    match out {
        Outcome::TransportFailure(e) => assert_eq!(e, "connection refused"),
        _ => panic!("expected a transport failure"),
    }
    assert_eq!(cache.load("x"), None);
}

#[test]
fn empty_choices_is_a_checked_error() {
    let mut cache = ResponseCache::new();
    let raw = "{\"id\":\"i\",\"object\":\"o\",\"created\":1,\"choices\":[],\
               \"usage\":{\"prompt_tokens\":0,\"completion_tokens\":0,\"total_tokens\":0}}";
    let out = finish(&mut cache, "x", Ok(raw.to_string()));
    assert!(matches!(out, Outcome::EmptyChoices));
    assert_eq!(cache.load("x"), None);
}

#[test]
fn prepared_request_body_is_exact() {
    let cache = ResponseCache::new();
    let opts = MacroOptions {
        model: Some("o1-preview".to_string()),
        prompt: None,
        seed: Some(20),
        max_completion_tokens: Some(4096),
    };
    let step = begin("sys", Some("x"), Some("sk-real"), &opts, &cache);
    let req = match step {
        PlanStep::CallRemote(req) => req,
        _ => panic!("expected a remote call"),
    };
    assert_eq!(
        req.body,
        "{\"model\":\"o1-preview\",\"messages\":[\
         {\"role\":\"system\",\"content\":\"sys\"},\
         {\"role\":\"user\",\"content\":\"x\"}],\
         \"seed\":20,\"max_completion_tokens\":4096}"
    );
}

#[test]
fn oversized_seed_is_transmitted_reduced() {
    let cache = ResponseCache::new();
    let opts = MacroOptions {
        model: None,
        prompt: None,
        seed: Some(9223372036854775808),
        max_completion_tokens: None,
    };
    let step = begin("sys", Some("x"), Some("sk-real"), &opts, &cache);
    let req = match step {
        PlanStep::CallRemote(req) => req,
        _ => panic!("expected a remote call"),
    };
    assert!(req.body.contains("\"seed\":1}"));
}

#[test]
fn reply_without_fences_falls_back_to_trimmed_body() {
    let mut cache = ResponseCache::new();
    let raw = response_with("  plain advice  ");
    let out = finish(&mut cache, "x", Ok(raw));
    match out {
        Outcome::Produced(p) => assert_eq!(p, "plain advice"),
        _ => panic!("expected a produced payload"),
    }
}

#[test]
fn unicode_content_passes_through() {
    let res = hey_chat_gpt::extract_rust_codes("```rust\nprintln!(\"日本語\");\n```");
    assert_eq!(res, vec!["println!(\"日本語\");\n".to_string()]);
}

#[test]
fn default_seed_is_the_content_key() {
    let cache = ResponseCache::new();
    let step = begin("sys", Some("x"), Some("sk-real"), &no_opts(), &cache);
    let req = match step {
        PlanStep::CallRemote(req) => req,
        _ => panic!("expected a remote call"),
    };
    let expected_seed = bound_seed(hash_content("x"));
    assert!(req.body.contains(&format!("\"seed\":{}", expected_seed)));
}
