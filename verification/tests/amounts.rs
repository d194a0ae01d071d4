use tezedge::address_map::AddressMap;
use tezedge::fraction::share_of;
use tezedge::mutez::{InvalidAmount, Mutez};
use tezedge::text::{comes_before, digits_text, int32_text, trim_end_char, trim_start_char};

fn mutez(text: &str) -> Mutez {
    Mutez::parse(text).unwrap()
}

#[test]
fn amounts_are_read_and_written() {
    assert_eq!(mutez("-12_5").to_text(), "-125");
    assert_eq!(mutez("+7").to_text(), "7");
    assert_eq!(mutez("-0").to_text(), "0");
    assert_eq!(mutez("007").to_text(), "7");
    assert_eq!(
        mutez("123456789012345678901234567890").to_text(),
        "123456789012345678901234567890"
    );
    for text in ["", "-", "+"] {
        assert_eq!(Mutez::parse(text).unwrap_err(), InvalidAmount::Empty);
    }
    for text in ["_5", "+-5", "-+5", "-+", "++", "--1", "1.5", " 1", "1a", "-_1"] {
        assert_eq!(Mutez::parse(text).unwrap_err(), InvalidAmount::InvalidDigit);
    }
}

#[test]
fn refused_amounts_are_told_in_the_words_of_num() {
    for text in ["", "-", "+", "_5", "-+", "++", "1.5", "x"] {
        let outside = text.parse::<num::BigInt>().unwrap_err().to_string();
        assert_eq!(Mutez::parse(text).unwrap_err().message(), outside);
    }
    assert_eq!(InvalidAmount::Empty.message(), "cannot parse integer from empty string");
    assert_eq!(InvalidAmount::InvalidDigit.message(), "invalid digit found in string");
}

#[test]
fn written_amounts_are_read_back() {
    for text in [
        "0",
        "1",
        "-1",
        "127",
        "128",
        "-128",
        "-129",
        "255",
        "256",
        "65536",
        "-18446744073709551616",
        "340282366920938463463374607431768211456",
    ] {
        assert_eq!(mutez(text).to_text(), text);
        assert!(mutez(text).same(&mutez(&mutez(text).to_text())));
    }
}

#[test]
fn amounts_are_added_and_compared() {
    assert_eq!(mutez("18446744073709551615").plus(&mutez("1")).to_text(), "18446744073709551616");
    assert_eq!(mutez("5").plus(&mutez("-8")).to_text(), "-3");
    assert_eq!(mutez("5").distance(&mutez("8")).to_text(), "3");
    assert_eq!(mutez("8").distance(&mutez("5")).to_text(), "3");
    assert!(mutez("5").same(&mutez("05")));
    assert!(!mutez("5").same(&mutez("-5")));
    assert!(Mutez::zero().is_zero());
    assert!(mutez("4").plus(&mutez("-4")).is_zero());
    assert!(!mutez("1").is_zero());
    assert_eq!(Mutez::default().to_text(), "0");
    assert_eq!(mutez("-77").clone().to_text(), "-77");
}

#[test]
fn shares_are_rounded_half_away_from_zero() {
    assert_eq!(share_of(&mutez("100"), &mutez("250"), &mutez("1000")).to_text(), "25");
    assert_eq!(share_of(&mutez("10"), &mutez("1"), &mutez("4")).to_text(), "3");
    assert_eq!(share_of(&mutez("10"), &mutez("1"), &mutez("3")).to_text(), "3");
    assert_eq!(share_of(&mutez("11"), &mutez("1"), &mutez("3")).to_text(), "4");
    assert_eq!(share_of(&mutez("-10"), &mutez("1"), &mutez("4")).to_text(), "-3");
    assert_eq!(share_of(&mutez("10"), &mutez("1"), &mutez("-4")).to_text(), "-3");
    assert_eq!(share_of(&mutez("10"), &mutez("0"), &mutez("4")).to_text(), "0");
    assert_eq!(
        share_of(
            &mutez("1000000000000000000000"),
            &mutez("1"),
            &mutez("3"),
        )
        .to_text(),
        "333333333333333333333"
    );
}

#[test]
fn addresses_are_kept_in_order() {
    let mut map: AddressMap<Mutez> = AddressMap::new();
    map.insert("tz1b".to_owned(), mutez("2"));
    map.insert("tz1a".to_owned(), mutez("1"));
    map.insert("KT1".to_owned(), mutez("3"));
    map.insert("tz1a".to_owned(), mutez("10"));
    assert_eq!(map.len(), 3);
    assert_eq!(map.key(0), "KT1");
    assert_eq!(map.key(1), "tz1a");
    assert_eq!(map.key(2), "tz1b");
    assert_eq!(map.value(1).to_text(), "10");
    assert_eq!(map.get("tz1b").unwrap().to_text(), "2");
    assert!(map.get("tz1").is_none());
}

#[test]
fn texts_are_ordered_trimmed_and_made() {
    assert!(comes_before("KT1", "tz1"));
    assert!(comes_before("tz1", "tz1a"));
    assert!(!comes_before("tz1a", "tz1a"));
    assert!(!comes_before("tz1b", "tz1a"));
    assert_eq!(trim_end_char("a\n\n", '\n'), "a");
    assert_eq!(trim_end_char("\n\n", '\n'), "");
    assert_eq!(trim_end_char("\na", '\n'), "\na");
    assert_eq!(trim_start_char("\"\"a\"", '"'), "a\"");
    assert_eq!(digits_text(0), "0");
    assert_eq!(digits_text(65535), "65535");
    assert_eq!(int32_text(-2147483648), "-2147483648");
    assert_eq!(int32_text(2147483647), "2147483647");
}
