use discord_cli::color::{parse_embed_color, ColorError};
use discord_cli::text::{decimal, mask_webhook, mask_webhook_defined};

#[test]
fn mask_webhook_keeps_short_urls_and_masks_long_urls() {
    assert_eq!(mask_webhook("short-url"), "short-url");

    let long = "https://discord.com/api/webhooks/1234567890/abcdefghijklmnopqrstuvwxyz";
    let masked = mask_webhook(long);

    assert!(masked.starts_with("https://discord.com/api/webhooks/1234567"));
    assert!(masked.ends_with("qrstuvwxyz"));
    assert!(masked.contains("..."));
}

#[test]
fn mask_webhook_exact_edges() {
    let fifty = "a".repeat(50);
    assert_eq!(mask_webhook(&fifty), fifty);
    let fifty_one = format!("{}{}", "b".repeat(41), "c".repeat(10));
    assert_eq!(mask_webhook(&fifty_one), format!("{}...{}", "b".repeat(40), "c".repeat(10)));
    let long = "https://discord.com/api/webhooks/1234567890/abcdefghijklmnopqrstuvwxyz";
    assert_eq!(
        mask_webhook(long),
        "https://discord.com/api/webhooks/1234567...qrstuvwxyz"
    );
}

#[test]
fn mask_webhook_defined_follows_char_boundaries() {
    assert!(mask_webhook_defined("short"));
    // A two-byte character straddling byte 40.
    let straddle = format!("{}é{}", "a".repeat(39), "z".repeat(20));
    assert!(!mask_webhook_defined(&straddle));
    let aligned = format!("{}é{}", "a".repeat(38), "z".repeat(20));
    assert!(mask_webhook_defined(&aligned));
    assert_eq!(mask_webhook(&aligned), format!("{}é...{}", "a".repeat(38), "z".repeat(10)));
}

#[test]
fn parse_embed_color_accepts_hash_hex_prefix_and_none() {
    const HASH_COLOR: u32 = 0x00ff10;
    const PREFIX_COLOR: u32 = 0xabcdef;
    const PREFIX_COLOR_INPUT: &str = "0xabcdef";

    assert_eq!(parse_embed_color(Some("#00ff10")).expect("hash"), Some(HASH_COLOR));
    assert_eq!(
        parse_embed_color(Some(PREFIX_COLOR_INPUT)).expect("prefix"),
        Some(PREFIX_COLOR)
    );
    assert_eq!(parse_embed_color(None).expect("none"), None);
    assert!(parse_embed_color(Some("not-hex")).is_err());
}

#[test]
fn parse_embed_color_error_kinds() {
    assert_eq!(parse_embed_color(Some("")), Err(ColorError::Empty));
    assert_eq!(parse_embed_color(Some("0x")), Err(ColorError::Empty));
    assert_eq!(parse_embed_color(Some("0x0x##")), Err(ColorError::Empty));
    assert_eq!(parse_embed_color(Some("+")), Err(ColorError::InvalidDigit));
    assert_eq!(parse_embed_color(Some("-")), Err(ColorError::InvalidDigit));
    assert_eq!(parse_embed_color(Some("-1")), Err(ColorError::InvalidDigit));
    assert_eq!(parse_embed_color(Some("100000000")), Err(ColorError::Overflow));
    assert_eq!(parse_embed_color(Some("1000000000z")), Err(ColorError::Overflow));
    assert_eq!(parse_embed_color(Some("fz000000000")), Err(ColorError::InvalidDigit));
    assert_eq!(parse_embed_color(Some("ffffffff")), Ok(Some(u32::MAX)));
    assert_eq!(parse_embed_color(Some("+Ff")), Ok(Some(255)));
    assert_eq!(parse_embed_color(Some("0x0xff")), Ok(Some(255)));
    assert_eq!(parse_embed_color(Some("##0")), Ok(Some(0)));
    assert_eq!(parse_embed_color(Some("#0xff")), Err(ColorError::InvalidDigit));
    assert_eq!(parse_embed_color(Some("0000000000000001")), Ok(Some(1)));
}

fn std_reading(text: &str) -> Option<u32> {
    let t = text.trim_start_matches("0x").trim_start_matches('#');
    u32::from_str_radix(t, 16).ok()
}

#[test]
fn parse_embed_color_agrees_with_std_parsing() {
    let inputs = [
        "", "0", "0x", "#", "+", "-", "+-1", "++1", "-0", "0x00ff00", "#00FF00", "##ff", "0x#ff",
        "#0xff", "0x0x0x1", "ffffffff", "100000000", "fffffffff", "12g", "é", "1é", " 1", "1 ",
        "0001", "+0", "DeadBeef", "0X10",
    ];
    for text in inputs {
        assert_eq!(parse_embed_color(Some(text)).ok().flatten(), std_reading(text), "{:?}", text);
    }
}

#[test]
fn color_round_trips_through_hex_text() {
    for v in [0u32, 1, 15, 16, 255, 0x00ff10, 0xabcdef, u32::MAX] {
        assert_eq!(parse_embed_color(Some(&format!("{:x}", v))), Ok(Some(v)));
        assert_eq!(parse_embed_color(Some(&format!("#{:x}", v))), Ok(Some(v)));
        assert_eq!(parse_embed_color(Some(&format!("0x{:x}", v))), Ok(Some(v)));
    }
}

#[test]
fn decimal_writes_numbers() {
    for v in [0u32, 7, 10, 99, 100, 4096, u32::MAX] {
        assert_eq!(decimal(v), v.to_string());
    }
}

#[test]
fn color_error_messages_match_std() {
    let empty = u32::from_str_radix("", 16).unwrap_err().to_string();
    let invalid = u32::from_str_radix("z", 16).unwrap_err().to_string();
    let overflow = u32::from_str_radix("100000000", 16).unwrap_err().to_string();
    assert_eq!(ColorError::Empty.message(), empty);
    assert_eq!(ColorError::InvalidDigit.message(), invalid);
    assert_eq!(ColorError::Overflow.message(), overflow);
}
