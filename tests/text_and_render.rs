use error_dedup::fingerprint::{fingerprint, FINGERPRINT_LEN};
use error_dedup::headline::{truncate_error, HEADLINE_LIMIT};
use error_dedup::notify::{
    blank_field, field_value, is_view_payload_request, occurrence_footer, render_notification,
    EmbedField, ReportContext, VIEW_PAYLOAD_ACTION, VIEW_PAYLOAD_LABEL,
};
use error_dedup::text::decimal;

#[test]
fn fingerprint_is_deterministic() {
    let a = fingerprint("panic: X at line 10");
    let b = fingerprint("panic: X at line 10");
    assert_eq!(a, b);
    assert_eq!(a.len(), FINGERPRINT_LEN);
}

#[test]
fn fingerprint_differs_for_different_payloads() {
    assert_ne!(fingerprint("panic: X at line 10"), fingerprint("panic: X at line 11"));
    assert_ne!(fingerprint(""), fingerprint(" "));
}

#[test]
fn fingerprint_is_sha256_of_the_text() {
    let expected: Vec<u8> = vec![
        0xba, 0x78, 0x16, 0xbf, 0x8f, 0x01, 0xcf, 0xea, 0x41, 0x41, 0x40, 0xde, 0x5d, 0xae, 0x22,
        0x23, 0xb0, 0x03, 0x61, 0xa3, 0x96, 0x17, 0x7a, 0x9c, 0xb4, 0x10, 0xff, 0x61, 0xf2, 0x00,
        0x15, 0xad,
    ];
    assert_eq!(fingerprint("abc"), expected);
}

#[test]
fn short_text_is_kept_whole() {
    assert_eq!(truncate_error("boom"), "boom");
    assert_eq!(truncate_error(""), "");
    let exact = "a".repeat(HEADLINE_LIMIT);
    assert_eq!(truncate_error(&exact), exact);
}

#[test]
fn long_ascii_text_is_cut_at_limit() {
    let long = "b".repeat(300);
    let cut = truncate_error(&long);
    assert_eq!(cut.len(), 256);
    assert_eq!(cut, "b".repeat(256));
}

#[test]
fn multibyte_char_across_limit_is_not_split() {
    // 255 ASCII bytes, then a two-byte character over bytes 255 and 256.
    let text = format!("{}é tail", "a".repeat(255));
    let cut = truncate_error(&text);
    assert_eq!(cut, "a".repeat(255));
    // A four-byte character over bytes 254..258.
    let text = format!("{}😀", "a".repeat(254));
    assert_eq!(truncate_error(&text), "a".repeat(254));
    // A three-byte character that ends exactly at the limit is kept.
    let text = format!("{}€xyz", "a".repeat(253));
    assert_eq!(truncate_error(&text), format!("{}€", "a".repeat(253)));
}

#[test]
fn all_multibyte_text_stays_within_limit() {
    let text = "日本語".repeat(100);
    let cut = truncate_error(&text);
    assert!(cut.len() <= 256);
    assert_eq!(cut.len(), 255);
    assert!(text.starts_with(&cut));
}

#[test]
fn footer_counts() {
    assert_eq!(occurrence_footer(1), "This error has occurred 1 time!");
    assert_eq!(occurrence_footer(2), "This error has occurred 2 times!");
    assert_eq!(occurrence_footer(1234), "This error has occurred 1234 times!");
}

#[test]
fn decimal_notation() {
    assert_eq!(decimal(0), "0");
    assert_eq!(decimal(7), "7");
    assert_eq!(decimal(10), "10");
    assert_eq!(decimal(907), "907");
    assert_eq!(decimal(u64::MAX), "18446744073709551615");
}

#[test]
fn field_values_are_quoted_unless_blank() {
    assert_eq!(field_value("GuildCreate"), "`GuildCreate`");
    assert_eq!(field_value(""), "``");
    assert_eq!(field_value("\u{200B}"), "\u{200B}");
}

#[test]
fn blank_field_is_zero_width() {
    let (name, value, inline) = blank_field();
    assert_eq!(name, "\u{200B}");
    assert_eq!(value, "\u{200B}");
    assert!(inline);
}

#[test]
fn view_payload_request_is_exact_match() {
    assert!(is_view_payload_request(VIEW_PAYLOAD_ACTION));
    assert!(!is_view_payload_request("error::view_traceback "));
    assert!(!is_view_payload_request(""));
}

fn context() -> ReportContext {
    ReportContext {
        event: "command".to_string(),
        bot_user: "TTS Bot".to_string(),
        extra_fields: vec![
            EmbedField { name: "Command".to_string(), value: "join".to_string(), inline: true },
            EmbedField {
                name: "\u{200B}".to_string(),
                value: "\u{200B}".to_string(),
                inline: true,
            },
        ],
        cpu_usage: "0.5".to_string(),
        memory_used: 2048 * 1024 + 5,
        shard_count: 3,
        author_name: Some("alice".to_string()),
        icon_url: None,
    }
}

#[test]
fn rendering_orders_and_decorates_fields() {
    let ctx = context();
    let note = render_notification("boom", &ctx);
    assert_eq!(note.title, "boom");
    assert_eq!(note.footer, "This error has occurred 1 time!");
    assert_eq!(note.action_label, VIEW_PAYLOAD_LABEL);
    assert_eq!(note.action_id, VIEW_PAYLOAD_ACTION);
    let fields: Vec<(String, String, bool)> =
        note.fields.iter().map(|f| (f.name.clone(), f.value.clone(), f.inline)).collect();
    let expected: Vec<(String, String, bool)> = vec![
        ("Event", "`command`"),
        ("Bot User", "`TTS Bot`"),
        ("\u{200B}", "\u{200B}"),
        ("Command", "`join`"),
        ("\u{200B}", "\u{200B}"),
        ("CPU Usage (5 minutes)", "`0.5`"),
        ("System Memory Usage", "`2048`"),
        ("Shard Count", "`3`"),
    ]
    .into_iter()
    .map(|(n, v)| (n.to_string(), v.to_string(), true))
    .collect();
    assert_eq!(fields, expected);
    let author = note.author.expect("author line");
    assert_eq!(author.name, "alice");
    assert!(author.icon_url.is_none());
}

#[test]
fn rendering_truncates_headline_and_omits_missing_author() {
    let mut ctx = context();
    ctx.author_name = None;
    ctx.icon_url = Some("https://example.invalid/icon.png".to_string());
    let note = render_notification(&"x".repeat(400), &ctx);
    assert_eq!(note.title.len(), 256);
    assert!(note.author.is_none());
}
