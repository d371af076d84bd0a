use hey_chat_gpt::{assemble_payload, extract_rust_codes, remove_markdown};

#[test]
fn test_extract_rust_codes() {
    let input = r#"
aaaa        
        
```rust
fn main() {
    println!("Hello, world!");
}
```

bbbbb

```rust
fn hoge() {
    println!("hoge");
}
```

cccccc"#;
    let expected = vec![
        r#"fn main() {
    println!("Hello, world!");
}
"#
        .to_string(),
        r#"fn hoge() {
    println!("hoge");
}
"#
        .to_string(),
    ];

    let res = extract_rust_codes(input);
    assert_eq!(res, expected);
}

#[test]
fn extract_single_block() {
    let res = extract_rust_codes("```rust\nfoo\n```");
    assert_eq!(res, vec!["foo\n".to_string()]);
}

#[test]
fn extract_no_fences_is_empty() {
    let res = extract_rust_codes("plain text, no fences");
    assert_eq!(res, Vec::<String>::new());
}

#[test]
fn extract_two_blocks() {
    let res = extract_rust_codes("```rust\na\n```\n```rust\nb\n```");
    assert_eq!(res, vec!["a\n".to_string(), "b\n".to_string()]);
}

#[test]
fn extract_unterminated_block_is_dropped() {
    let res = extract_rust_codes("```rust\nnever closed");
    assert_eq!(res, Vec::<String>::new());
}

#[test]
fn extract_indented_fences() {
    let res = extract_rust_codes("  ```rust\nx\n  ```");
    assert_eq!(res, vec!["x\n".to_string()]);
}

#[test]
fn extract_reopened_block_restarts() {
    let res = extract_rust_codes("```rust\na\n```rust\nb\n```");
    assert_eq!(res, vec!["b\n".to_string()]);
}

#[test]
fn extract_crlf_lines() {
    let res = extract_rust_codes("```rust\r\nfoo\r\n```\r\n");
    assert_eq!(res, vec!["foo\n".to_string()]);
}

#[test]
fn payload_joins_blocks_with_newline() {
    let out = assemble_payload("```rust\na\n```\n```rust\nb\n```");
    assert_eq!(out, "a\n\nb\n".to_string());
}

#[test]
fn payload_single_block() {
    let out = assemble_payload("reply:\n```rust\nfn f(){}\n```\nbye");
    assert_eq!(out, "fn f(){}\n".to_string());
}

#[test]
fn payload_falls_back_to_trimmed_body() {
    let out = assemble_payload("  plain text, no fences \n");
    assert_eq!(out, "plain text, no fences".to_string());
}

#[test]
fn extract_fence_indented_with_unicode_whitespace() {
    let res = extract_rust_codes("\u{00A0}```rust\ny\n\u{3000}```");
    assert_eq!(res, vec!["y\n".to_string()]);
}

#[test]
fn payload_trims_unicode_whitespace() {
    let out = assemble_payload("\u{2003}no fences here\u{3000}");
    assert_eq!(out, "no fences here".to_string());
}

#[test]
fn remove_markdown_strips_fences() {
    let out = remove_markdown("```rust\nfn f(){}\n```");
    assert_eq!(out, "\nfn f(){}\n");
}

#[test]
fn remove_markdown_trims_whitespace_only() {
    let out = remove_markdown("  fn f(){}  ");
    assert_eq!(out, "fn f(){}");
}

#[test]
fn remove_markdown_strips_repeated_fences() {
    let out = remove_markdown("```rust```rustx``````");
    assert_eq!(out, "x");
}
