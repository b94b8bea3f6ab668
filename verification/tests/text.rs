use bulennode::config::{parse_flag, parse_list, parse_origins, parse_pairs, parse_peers, parse_steps};
use bulennode::rate_limit::{count_request, Bucket};
use bulennode::rewards::compute_loyalty_step;
use bulennode::sdk::{build_payment_link, payment_path, PaymentLinkRequest, PaymentResponse};
use bulennode::payments::PaymentStatus;
use bulennode::text::{chars_of, decimal_text, hex_text, parse_u32, parse_u64, same_text, text_of};

#[test]
fn sdk_rust_payments_and_links() {
    let local_link = build_payment_link("sdk-rs-merchant", 50, Some("sdk-rs-order"));
    assert!(local_link.starts_with("bulen:sdk-rs-merchant?amount=50"));
    assert!(local_link.contains("memo=sdk-rs-order"));
    assert_eq!(local_link, "bulen:sdk-rs-merchant?amount=50&memo=sdk-rs-order");
}

#[test]
fn payment_links() {
    assert_eq!(build_payment_link("addr", 0, None), "bulen:addr?amount=0");
    assert_eq!(
        build_payment_link("addr", u64::MAX, Some("")),
        "bulen:addr?amount=18446744073709551615&memo="
    );
    assert_eq!(
        build_payment_link("a b", 7, Some("a b&c=d/é~_.-")),
        "bulen:a b?amount=7&memo=a%20b%26c%3Dd%2F%C3%A9~_.-"
    );
    assert_eq!(build_payment_link("x", 1, Some("\u{0}\u{7f}Zz09")), "bulen:x?amount=1&memo=%00%7FZz09");
    let request = PaymentLinkRequest { address: "shop".to_string(), amount: 5, memo: Some("#1".to_string()) };
    assert_eq!(request.link(), "bulen:shop?amount=5&memo=%231");
    assert_eq!(payment_path("pay_1"), "payments/pay_1");
}

#[test]
fn reported_status() {
    let response = |status: &str| PaymentResponse {
        id: "pay_1".to_string(),
        to: "shop".to_string(),
        amount: 1,
        memo: None,
        status: status.to_string(),
        created_at: String::new(),
        expires_at: String::new(),
        transaction_id: None,
        block_index: None,
        webhook_url: None,
    };
    assert_eq!(response("paid").state(), Some(PaymentStatus::Paid));
    assert_eq!(response("pending_block").state(), Some(PaymentStatus::PendingBlock));
    assert_eq!(response("refunded").state(), None);
}

#[test]
fn comma_separated_lists() {
    assert_eq!(parse_peers(""), Vec::<String>::new());
    assert_eq!(parse_peers(" , ,, "), Vec::<String>::new());
    assert_eq!(parse_peers("http://a"), vec!["http://a"]);
    assert_eq!(
        parse_peers(" http://a:1 ,http://b\t,\n, http://c d ,"),
        vec!["http://a:1", "http://b", "http://c d"]
    );
    assert_eq!(parse_origins("\u{a0}x\u{3000},\u{2003}y z\u{2028}"), vec!["x", "y z"]);
    assert_eq!(parse_origins("a,a"), vec!["a", "a"]);
    assert_eq!(parse_list("é , ü"), vec!["é", "ü"]);
    assert_eq!(parse_list(",x"), vec!["x"]);
    let by_hand: Vec<String> = " p , q ,, r"
        .split(',')
        .map(|v| v.trim().to_string())
        .filter(|v| !v.is_empty())
        .collect();
    assert_eq!(parse_list(" p , q ,, r"), by_hand);
}

#[test]
fn lists_of_pairs() {
    let pair = |k: &str, v: &str| (k.to_string(), v.to_string());
    assert_eq!(parse_pairs(""), vec![]);
    assert_eq!(parse_pairs("phone:1.15"), vec![pair("phone", "1.15")]);
    assert_eq!(
        parse_pairs(" phone : 1.15 ,tablet:1.1:ignored,broken,:,a:"),
        vec![pair("phone", "1.15"), pair("tablet", "1.1"), pair("", ""), pair("a", "")]
    );
    assert_eq!(
        parse_steps("30:1.05, 180 : 1.1 ,x:2,-1:3,+7:4, 365:1.2:9,18446744073709551616:5,:6"),
        vec![
            (30, "1.05".to_string()),
            (180, "1.1".to_string()),
            (7, "4".to_string()),
            (365, "1.2".to_string())
        ]
    );
    assert_eq!(parse_steps("365:b,30:a"), vec![(365, "b".to_string()), (30, "a".to_string())]);
    assert_eq!(parse_steps("no colon"), vec![]);
}

#[test]
fn flags() {
    assert!(parse_flag(Some("1"), false));
    assert!(parse_flag(Some("true"), false));
    assert!(parse_flag(Some("TRUE"), false));
    assert!(parse_flag(Some("Yes"), false));
    assert!(!parse_flag(Some("0"), true));
    assert!(!parse_flag(Some("no"), true));
    assert!(!parse_flag(Some(""), true));
    assert!(!parse_flag(Some(" true"), true));
    assert!(parse_flag(None, true));
    assert!(!parse_flag(None, false));
}

#[test]
fn numbers_in_base_ten() {
    assert_eq!(decimal_text(0), "0");
    assert_eq!(decimal_text(9), "9");
    assert_eq!(decimal_text(10), "10");
    assert_eq!(decimal_text(1234567890), "1234567890");
    assert_eq!(decimal_text(u128::MAX), u128::MAX.to_string());
    let digits = chars_of("+0042x");
    assert_eq!(parse_u32(&digits, 0, 5), Some(42));
    assert_eq!(parse_u32(&digits, 1, 5), Some(42));
    assert_eq!(parse_u32(&digits, 0, 6), None);
    assert_eq!(parse_u32(&digits, 0, 1), None);
    assert_eq!(parse_u32(&digits, 2, 2), None);
    assert_eq!(parse_u32(&digits, 1, 2), Some(0));
    let large = chars_of("18446744073709551615");
    assert_eq!(parse_u64(&large, 0, 20), Some(u64::MAX));
    assert_eq!(parse_u32(&large, 0, 20), None);
    assert_eq!(parse_u64(&chars_of("18446744073709551616"), 0, 20), None);
}

#[test]
fn bytes_in_hexadecimal() {
    assert_eq!(hex_text(&vec![]), "");
    assert_eq!(hex_text(&vec![0x00, 0x0f, 0xa0, 0xff, 0x9c]), "000fa0ff9c");
}

#[test]
fn texts() {
    assert!(same_text("", ""));
    assert!(same_text("héllo", "héllo"));
    assert!(!same_text("héllo", "hello"));
    assert!(!same_text("abc", "ab"));
    assert!(!same_text("ab", "abc"));
    let chars = chars_of("a🦀c");
    assert_eq!(chars, vec!['a', '🦀', 'c']);
    assert_eq!(text_of(&chars, 1, 3), "🦀c");
    assert_eq!(text_of(&chars, 2, 2), "");
}

#[test]
fn loyalty_steps() {
    let day = 86_400u64;
    let steps = vec![30, 180, 365];
    assert_eq!(compute_loyalty_step(&steps, 0), None);
    assert_eq!(compute_loyalty_step(&steps, 30 * day - 1), None);
    assert_eq!(compute_loyalty_step(&steps, 30 * day), Some(0));
    assert_eq!(compute_loyalty_step(&steps, 180 * day - 1), Some(0));
    assert_eq!(compute_loyalty_step(&steps, 180 * day), Some(1));
    assert_eq!(compute_loyalty_step(&steps, 365 * day), Some(2));
    assert_eq!(compute_loyalty_step(&steps, u64::MAX), Some(2));
    assert_eq!(compute_loyalty_step(&vec![], u64::MAX), None);
    assert_eq!(compute_loyalty_step(&vec![365, 30, 180], 400 * day), Some(0));
    assert_eq!(compute_loyalty_step(&vec![30, 30, 10], 40 * day), Some(1));
    assert_eq!(compute_loyalty_step(&vec![0], 0), Some(0));
    assert_eq!(compute_loyalty_step(&vec![u64::MAX], u64::MAX), None);
}

#[test]
fn request_windows() {
    let (first, ok) = count_request(None, 1_000, 15_000, 2);
    assert_eq!((first, ok), (Bucket { count: 1, resets_at: 16_000 }, true));
    let (second, ok) = count_request(Some(first), 2_000, 15_000, 2);
    assert_eq!((second, ok), (Bucket { count: 2, resets_at: 16_000 }, true));
    let (third, ok) = count_request(Some(second), 16_000, 15_000, 2);
    assert_eq!((third, ok), (Bucket { count: 3, resets_at: 16_000 }, false));
    let (fresh, ok) = count_request(Some(third), 16_001, 15_000, 2);
    assert_eq!((fresh, ok), (Bucket { count: 1, resets_at: 31_001 }, true));
    assert_eq!(count_request(None, 5, 5, 0), (Bucket { count: 1, resets_at: 10 }, false));
    assert_eq!(
        count_request(Some(Bucket { count: u32::MAX, resets_at: 9 }), 9, 1, u32::MAX),
        (Bucket { count: u32::MAX, resets_at: 9 }, false)
    );
    assert_eq!(
        count_request(None, u64::MAX, 1, 1),
        (Bucket { count: 1, resets_at: u64::MAX }, true)
    );
}
