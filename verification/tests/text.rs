use heimdall::address::{contains, Address, AddressError};
use heimdall::balance::{parse_sol_balance, sol_balance_text, sol_fraction, sol_whole};
use heimdall::decimal::{decimal_text, parse_decimal, push_decimal};
use heimdall::schema::{address_table_name, user_table_name, SchemaError};

const TOKEN_PROGRAM: &str = "TokenkegQfeZyiNwAJbNbGKPFXCWuBvf9Ss623VQ5DA";

#[test]
fn address_of_zero_bytes_is_thirty_two_ones() {
    let zero = Address::new([0u8; 32]);
    assert_eq!(zero.to_text(), "11111111111111111111111111111111");
}

#[test]
fn address_text_round_trip() {
    let parsed = Address::parse(TOKEN_PROGRAM).unwrap();
    assert_eq!(parsed.bytes[0], 6);
    assert_eq!(parsed.bytes[31], 169);
    assert_eq!(parsed.to_text(), TOKEN_PROGRAM);
}

#[test]
fn address_parse_refuses_what_is_not_base58() {
    assert_eq!(Address::parse("0OIl").unwrap_err(), AddressError::NotBase58);
    assert_eq!(Address::parse("héllo").unwrap_err(), AddressError::NotBase58);
}

#[test]
fn address_parse_refuses_wrong_length() {
    assert_eq!(Address::parse("he11owor1d").unwrap_err(), AddressError::WrongLength);
    assert_eq!(Address::parse("").unwrap_err(), AddressError::WrongLength);
}

#[test]
fn address_from_slice_needs_thirty_two_bytes() {
    assert!(Address::from_slice(&[7u8; 31]).is_none());
    assert!(Address::from_slice(&[7u8; 33]).is_none());
    assert_eq!(Address::from_slice(&[7u8; 32]).unwrap().bytes, [7u8; 32]);
}

#[test]
fn address_same_compares_bytes() {
    let a = Address::new([1u8; 32]);
    let mut other = [1u8; 32];
    assert!(a.same(&Address::new(other)));
    other[31] = 2;
    assert!(!a.same(&Address::new(other)));
}

#[test]
fn contains_finds_by_bytes() {
    let list = vec![Address::new([1u8; 32]), Address::new([2u8; 32])];
    assert!(contains(&list, &Address::new([2u8; 32])));
    assert!(!contains(&list, &Address::new([3u8; 32])));
    assert!(!contains(&Vec::new(), &Address::new([1u8; 32])));
}

#[test]
fn decimal_text_of_small_numbers() {
    assert_eq!(decimal_text(0), "0");
    assert_eq!(decimal_text(7), "7");
    assert_eq!(decimal_text(10), "10");
    assert_eq!(decimal_text(1_000_000), "1000000");
}

#[test]
fn decimal_text_of_largest_128_bit_value() {
    let text = decimal_text(u128::MAX);
    assert_eq!(text, "340282366920938463463374607431768211455");
    assert_eq!(parse_decimal(&text), Some(u128::MAX));
}

#[test]
fn push_decimal_appends() {
    let mut out = String::from("n=");
    push_decimal(&mut out, 4096);
    assert_eq!(out, "n=4096");
}

#[test]
fn parse_decimal_accepts_digits_only() {
    assert_eq!(parse_decimal("0042"), Some(42));
    assert_eq!(parse_decimal(""), None);
    assert_eq!(parse_decimal("+1"), None);
    assert_eq!(parse_decimal("-1"), None);
    assert_eq!(parse_decimal("1.0"), None);
    assert_eq!(parse_decimal(" 1"), None);
    assert_eq!(parse_decimal("१२"), None);
}

#[test]
fn parse_decimal_refuses_what_does_not_fit() {
    assert_eq!(parse_decimal("340282366920938463463374607431768211456"), None);
    assert_eq!(parse_decimal("3402823669209384634633746074317682114550"), None);
}

#[test]
fn lamports_conversion_is_exact() {
    let text = sol_balance_text(2_500_000_000);
    assert_eq!(text, "2.5");
    assert_eq!(text.parse::<f64>().unwrap(), 2.5);
    assert_eq!(sol_whole(2_500_000_000), 2);
    assert_eq!(sol_fraction(2_500_000_000), 500_000_000);
}

#[test]
fn sol_balance_text_edge_cases() {
    assert_eq!(sol_balance_text(0), "0");
    assert_eq!(sol_balance_text(1), "0.000000001");
    assert_eq!(sol_balance_text(1_000_000_000), "1");
    assert_eq!(sol_balance_text(1_000_000_010), "1.00000001");
    assert_eq!(sol_balance_text(999_999_999), "0.999999999");
    assert_eq!(sol_balance_text(u64::MAX), "18446744073.709551615");
}

#[test]
fn table_name_replaces_points_and_hyphens() {
    assert_eq!(user_table_name("a.b-c_D9").unwrap(), "user_a_b_c_D9");
    assert_eq!(user_table_name("").unwrap(), "user_");
}

#[test]
fn table_name_refuses_unsafe_characters() {
    assert_eq!(user_table_name("a;drop").unwrap_err(), SchemaError::UnsafeCharacter);
    assert_eq!(user_table_name("a b").unwrap_err(), SchemaError::UnsafeCharacter);
    assert_eq!(user_table_name("a\"b").unwrap_err(), SchemaError::UnsafeCharacter);
    assert_eq!(user_table_name("añb").unwrap_err(), SchemaError::UnsafeCharacter);
}

#[test]
fn table_name_of_an_address() {
    let user = Address::parse(TOKEN_PROGRAM).unwrap();
    assert_eq!(
        address_table_name(&user).unwrap(),
        "user_TokenkegQfeZyiNwAJbNbGKPFXCWuBvf9Ss623VQ5DA"
    );
}

#[test]
fn parse_sol_balance_reads_lamports() {
    assert_eq!(parse_sol_balance("2.5"), Some(2_500_000_000));
    assert_eq!(parse_sol_balance("0"), Some(0));
    assert_eq!(parse_sol_balance("1"), Some(1_000_000_000));
    assert_eq!(parse_sol_balance("0.000000001"), Some(1));
    assert_eq!(parse_sol_balance("2.500000000"), Some(2_500_000_000));
    assert_eq!(parse_sol_balance("007.10"), Some(7_100_000_000));
    assert_eq!(parse_sol_balance("18446744073.709551615"), Some(u64::MAX));
}

#[test]
fn parse_sol_balance_refuses_other_texts() {
    for text in ["", ".", "1.", ".5", "1.2.3", "-1", "+1", "1e9", " 1", "1.0000000001", "١"] {
        assert_eq!(parse_sol_balance(text), None, "{:?}", text);
    }
    assert_eq!(parse_sol_balance("18446744073.709551616"), None);
    assert_eq!(parse_sol_balance("18446744074"), None);
    assert_eq!(parse_sol_balance("340282366920938463463374607431768211456"), None);
}

#[test]
fn sol_balance_round_trip() {
    for lamports in [0u64, 1, 9, 10, 999_999_999, 1_000_000_000, 1_000_000_001, 2_500_000_000,
        123_456_789_012_345, u64::MAX - 1, u64::MAX]
    {
        assert_eq!(parse_sol_balance(&sol_balance_text(lamports)), Some(lamports));
    }
}
