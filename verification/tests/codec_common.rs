use halter_providers::codec_common::{
    bounded_provider_id_with_prefix, canonical_tool_name, data_url, document_filename,
    normalized_tool_call_id, sanitize_provider_id, short_hash, tool_name_for_provider,
};
use halter_providers::json::Json;
use halter_providers::protocol::{
    MediaBytes, ProviderKind, ToolAlias, ToolCallId, ToolName, ToolSpec,
};

#[test]
fn short_ascii_value_with_prefix_fits_unchanged() {
    let value = "hello_world";
    let result = bounded_provider_id_with_prefix("pre_", value, 64, "tool");
    assert!(result.starts_with("pre_hello_world"));
    assert_eq!(result.len(), "pre_hello_world".len());
}

#[test]
fn long_ascii_value_truncated_to_exact_max_len() {
    let max_len = 16;
    let value = "a".repeat(64);
    let result = bounded_provider_id_with_prefix("", &value, max_len, "tool");
    assert_eq!(result.len(), max_len, "result should be exactly {max_len} bytes");
    let expected_head_len = max_len - short_hash(&value).len() - "_".len();
    let expected = format!("{}_{}", "a".repeat(expected_head_len), short_hash(&value));
    assert_eq!(result, expected);
}

#[test]
fn empty_ascii_value_is_truncated_to_max_len() {
    let value = "";
    let max_len = 10;
    let result = bounded_provider_id_with_prefix("", value, max_len, "tool");
    // base "tool_<hash>" is longer than max_len, so it is truncated to
    // {head "t"}_{suffix}, giving exactly max_len bytes.
    assert!(result.starts_with("t_"));
    assert_eq!(result.len(), max_len);
}

#[test]
fn prefix_longer_than_max_len_returns_truncated_hash() {
    let value = "ignored";
    let result = bounded_provider_id_with_prefix("verylongprefix", value, 4, "tool");
    assert_eq!(result.len(), 4);
    // Should be the first 4 chars of the hex hash, all ASCII hex digits.
    assert!(result.chars().all(|c| c.is_ascii_hexdigit()));
}

#[test]
fn sanitize_provider_id_strips_non_ascii_to_underscores() {
    let input = "héllo-世界_";
    let out = sanitize_provider_id(input);
    assert!(out.is_ascii());
    assert_eq!(out, "h_llo-___");
}

#[test]
fn non_ascii_empty_prefix_suffix_path_is_safe() {
    // `empty_prefix` is not sanitized, so empty `value` causes `base` to
    // contain a multi-byte rune. With a small `max_len` we hit the suffix
    // branch and must never slice on a char boundary.
    let empty_prefix = "é";
    let value = "";
    let max_len = 2;
    let result = bounded_provider_id_with_prefix("", value, max_len, empty_prefix);
    assert!(std::str::from_utf8(result.as_bytes()).is_ok(), "result must be valid UTF-8");
    assert!(result.len() <= max_len, "{} <= {}", result.len(), max_len);
}

#[test]
fn non_ascii_empty_prefix_head_path_is_safe() {
    // Same non-ASCII `empty_prefix`, but with a max_len large enough to reach
    // the {head}_{suffix} branch. The head slice must clamp to a char boundary
    // (the 2-byte "é" would be split otherwise).
    let empty_prefix = "é";
    let value = "";
    let max_len = 10;
    let result = bounded_provider_id_with_prefix("", value, max_len, empty_prefix);
    assert!(result.is_char_boundary(0));
    assert!(result.is_char_boundary(result.len()));
    assert!(result.len() <= max_len);
}

#[test]
fn suffix_truncation_path_is_char_boundary_safe() {
    // Force the suffix branch by making the combined prefix+base exceed max_len
    // while `available` is at most 8 (suffix length).
    let value = "123456789";
    let max_len = 12;
    let prefix = "pre_";
    let result = bounded_provider_id_with_prefix(prefix, value, max_len, "tool");
    assert_eq!(result.len(), max_len);
    assert!(result.is_char_boundary(0));
    assert!(result.is_char_boundary(result.len()));
}

#[test]
fn short_hash_is_the_head_of_the_sha256_digest() {
    assert_eq!(short_hash(""), "e3b0c442");
    assert_eq!(short_hash("abc"), "ba7816bf");
}

#[test]
fn clean_tool_call_ids_are_kept_and_others_are_cleaned() {
    assert_eq!(normalized_tool_call_id(&ToolCallId("call_1".to_owned())), "call_1");
    assert_eq!(
        normalized_tool_call_id(&ToolCallId("call with spaces".to_owned())),
        "call_with_spaces"
    );
}

#[test]
fn tool_names_come_back_from_their_aliases() {
    let specs = vec![
        ToolSpec {
            name: ToolName("read".to_owned()),
            description: "reads".to_owned(),
            input_schema: Json::Null,
            provider_aliases: vec![ToolAlias {
                provider_kind: ProviderKind::OpenAi,
                alias: "fs_read".to_owned(),
            }],
        },
        ToolSpec {
            name: ToolName("write".to_owned()),
            description: "writes".to_owned(),
            input_schema: Json::Null,
            provider_aliases: Vec::new(),
        },
    ];
    let read = ToolName("read".to_owned());
    let alias = tool_name_for_provider(&read, &specs, ProviderKind::OpenAi);
    assert_eq!(alias, "fs_read");
    assert_eq!(canonical_tool_name(&alias, &specs, ProviderKind::OpenAi), read);
    assert_eq!(tool_name_for_provider(&read, &specs, ProviderKind::Anthropic), "read");
}

#[test]
fn data_urls_hold_base64() {
    let data = MediaBytes::new(b"pdf".to_vec()).expect("few bytes");
    assert_eq!(data_url("application/pdf", &data), "data:application/pdf;base64,cGRm");
}

#[test]
fn documents_are_named_after_their_type() {
    assert_eq!(document_filename("application/pdf"), "upload.pdf");
}
