use loan_workflow::amount::{parse_amount, Amount, AMOUNT_LIMIT};
use loan_workflow::numeral::{parse_age, parse_whole};

#[test]
fn whole_number_plain_digits() {
    assert_eq!(parse_whole("30"), Some(30));
    assert_eq!(parse_whole("+30"), Some(30));
    assert_eq!(parse_whole("0007"), Some(7));
    assert_eq!(parse_whole("4294967295"), Some(u32::MAX));
}

#[test]
fn whole_number_rejects_what_is_no_number() {
    assert_eq!(parse_whole(""), None);
    assert_eq!(parse_whole("+"), None);
    assert_eq!(parse_whole("-1"), None);
    assert_eq!(parse_whole("3.5"), None);
    assert_eq!(parse_whole(" 3"), None);
    assert_eq!(parse_whole("abc"), None);
    assert_eq!(parse_whole("４２"), None);
    assert_eq!(parse_whole("4294967296"), None);
    assert_eq!(parse_whole("99999999999999999999999999"), None);
}

#[test]
fn whole_number_agrees_with_std() {
    for text in ["0", "12", "+12", "-12", "", "+", "1e3", "007", "4294967295", "4294967296", "12a", "é"] {
        assert_eq!(parse_whole(text), text.parse::<u32>().ok(), "{:?}", text);
    }
}

#[test]
fn age_defaults_to_zero() {
    assert_eq!(parse_age("abc"), 0);
    assert_eq!(parse_age(""), 0);
    assert_eq!(parse_age("30"), 30);
}

#[test]
fn amount_of_plain_decimals() {
    assert_eq!(parse_amount("150000").thousandths(), 150_000_000);
    assert_eq!(parse_amount("1000").thousandths(), 1_000_000);
    assert_eq!(parse_amount("1234.5").thousandths(), 1_234_500);
    assert_eq!(parse_amount("-1234.5678").thousandths(), -1_234_568);
    assert!(parse_amount("-1234.5678").has_fraction());
    assert_eq!(parse_amount("1234.5678").thousandths(), 1_234_567);
    assert!(parse_amount("1234.5678").has_fraction());
    assert!(!parse_amount("1234.567").has_fraction());
    assert!(!parse_amount("1234.5670000").has_fraction());
    assert_eq!(parse_amount(".5").thousandths(), 500);
    assert_eq!(parse_amount("5.").thousandths(), 5_000);
    assert_eq!(parse_amount("+0.001").thousandths(), 1);
    assert_eq!(parse_amount("0.0009").thousandths(), 0);
    assert!(parse_amount("0.0009").has_fraction());
    assert_eq!(parse_amount("-0.0009").thousandths(), -1);
    assert!(parse_amount("-0.0009").has_fraction());
    assert_eq!(parse_amount("-0.000"), Amount::zero());
    assert_eq!(parse_amount("-0"), Amount::zero());
}

#[test]
fn amount_of_scaled_decimals() {
    assert_eq!(parse_amount("1e5").thousandths(), 100_000_000);
    assert_eq!(parse_amount("1.5E3").thousandths(), 1_500_000);
    assert_eq!(parse_amount("2e-3").thousandths(), 2);
    assert_eq!(parse_amount("2e-4").thousandths(), 0);
    assert!(parse_amount("2e-4").has_fraction());
    assert!(!parse_amount("2e-3").has_fraction());
    assert!(parse_amount("1e-99999999999999999999999999").has_fraction());
    assert!(!parse_amount("0e-99999999999999999999999999").has_fraction());
    assert_eq!(parse_amount("-1e-99999999999999999999999999").thousandths(), -1);
    assert_eq!(parse_amount("123456e-2").thousandths(), 1_234_560);
    assert_eq!(parse_amount("0.000012e+7").thousandths(), 120_000);
    assert_eq!(parse_amount("1e-99999999999999999999999999").thousandths(), 0);
    assert_eq!(parse_amount("0e99999999999999999999999999").thousandths(), 0);
}

#[test]
fn amount_is_held_at_the_limit() {
    assert_eq!(parse_amount("1e400").thousandths(), AMOUNT_LIMIT);
    assert_eq!(parse_amount("-1e400").thousandths(), -AMOUNT_LIMIT);
    assert_eq!(parse_amount("1e27").thousandths(), AMOUNT_LIMIT);
    assert_eq!(parse_amount("999999999999999999999999999.999").thousandths(), AMOUNT_LIMIT - 1);
    assert_eq!(parse_amount("1e99999999999999999999999999").thousandths(), AMOUNT_LIMIT);
    assert_eq!(Amount::from_thousandths(i128::MAX).thousandths(), AMOUNT_LIMIT);
    assert_eq!(Amount::from_thousandths(i128::MIN).thousandths(), -AMOUNT_LIMIT);
    assert_eq!(Amount::from_thousandths(-42).thousandths(), -42);
}

#[test]
fn amount_of_what_is_no_number_is_zero() {
    for text in [
        "", "abc", ".", "+", "-", "e5", "1e", "1e+", "1.2.3", "1e2e3", " 1", "1 ", "1,5", "--1",
        "1_000", "１", "in", "infinit", "infinityy", "na", "nano", "i\u{307}nf", "ınf", "nan ",
    ] {
        assert_eq!(parse_amount(text), Amount::zero(), "{:?}", text);
    }
}

#[test]
fn amount_from_units() {
    assert_eq!(Amount::from_units(150_000).thousandths(), 150_000_000);
    assert_eq!(Amount::from_units(-3), Amount::from_thousandths(-3000));
    assert_eq!(Amount::from_units(i64::MAX).thousandths(), (i64::MAX as i128) * 1000);
}

#[test]
fn infinite_words_read_as_the_limit() {
    for text in ["inf", "INF", "Inf", "+inf", "infinity", "Infinity", "INFINITY", "+iNfInItY"] {
        let a = parse_amount(text);
        assert!(a.is_number(), "{:?}", text);
        assert_eq!(a.thousandths(), AMOUNT_LIMIT, "{:?}", text);
        assert!(!a.has_fraction());
    }
    for text in ["-inf", "-INF", "-infinity", "-Infinity"] {
        let a = parse_amount(text);
        assert!(a.is_number(), "{:?}", text);
        assert_eq!(a.thousandths(), -AMOUNT_LIMIT, "{:?}", text);
    }
}

#[test]
fn nan_reads_as_no_number() {
    for text in ["nan", "NaN", "NAN", "+nan", "-nan", "nAn"] {
        let a = parse_amount(text);
        assert!(!a.is_number(), "{:?}", text);
        assert_eq!(a, Amount::not_a_number(), "{:?}", text);
        assert_eq!(a.thousandths(), 0);
        assert!(!a.has_fraction());
    }
    assert!(Amount::zero().is_number());
    assert!(parse_amount("abc").is_number());
}

#[test]
fn amount_agrees_with_std_on_what_is_a_number() {
    for text in [
        "", "1", "+1", "-1", "1.", ".1", ".", "1e5", "1E5", "1e+5", "1e-5", "1e", "e1", "+.5e-3",
        "inf", "-inf", "infinity", "Infinity", "nan", "NaN", "-nan", "infinit", " 1", "1 ", "0x10",
        "1_0", "1,0", "++1", "1.2.3", "١٢٣", "1f", "2.5", "-2.5", "1234.125",
    ] {
        let std_number = text.parse::<f64>().ok();
        let ours = parse_amount(text);
        match std_number {
            None => assert_eq!(ours, Amount::zero(), "{:?}", text),
            Some(v) if v.is_nan() => assert!(!ours.is_number(), "{:?}", text),
            Some(v) if v.is_infinite() => {
                assert_eq!(ours.thousandths() > 0, v > 0.0, "{:?}", text);
                assert_eq!(ours.thousandths().abs(), AMOUNT_LIMIT, "{:?}", text);
            }
            Some(v) => {
                assert!(ours.is_number(), "{:?}", text);
                assert_eq!(ours.thousandths(), (v * 1000.0).floor() as i128, "{:?}", text);
            }
        }
    }
}
