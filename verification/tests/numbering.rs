use cahlter::util::{next_chapter_number, remove_whitespace};

#[test]
fn it_should_count_a_single_component_up() {
    assert_eq!(next_chapter_number("3"), "4");
    assert_eq!(next_chapter_number("0"), "1");
}

#[test]
fn it_should_count_only_the_last_component_up() {
    assert_eq!(next_chapter_number("1.2.3"), "1.2.4");
    assert_eq!(next_chapter_number("7.1"), "7.2");
}

#[test]
fn it_should_carry_over_nines() {
    assert_eq!(next_chapter_number("9"), "10");
    assert_eq!(next_chapter_number("1.99"), "1.100");
    assert_eq!(next_chapter_number("2.1099"), "2.1100");
}

#[test]
fn it_should_drop_leading_zeros() {
    assert_eq!(next_chapter_number("007"), "8");
    assert_eq!(next_chapter_number("1.00"), "1.1");
    assert_eq!(next_chapter_number("1.099"), "1.100");
}

#[test]
fn it_should_count_beyond_machine_integers() {
    assert_eq!(next_chapter_number("4294967295"), "4294967296");
    assert_eq!(next_chapter_number("18446744073709551615"), "18446744073709551616");
    assert_eq!(
        next_chapter_number("1.99999999999999999999999999"),
        "1.100000000000000000000000000"
    );
}

#[test]
fn it_should_raise_the_last_component_by_two_when_counted_twice() {
    let numbers = vec![("1", "3"), ("1.2.3", "1.2.5"), ("4.8", "4.10"), ("2.99", "2.101")];

    for (number, expected) in numbers.iter() {
        let once = next_chapter_number(number);
        assert_eq!(next_chapter_number(&once), *expected);
    }
}

#[test]
fn it_should_keep_the_components_before_the_last() {
    assert_eq!(next_chapter_number("1.2"), "1.3");
    assert_eq!(next_chapter_number("10.20.30"), "10.20.31");
}

#[test]
fn it_should_take_exactly_the_white_space_of_unicode_for_white_space() {
    for code in 0..=0x10FFFFu32 {
        if let Some(c) = char::from_u32(code) {
            let white = (0x09..=0x0D).contains(&code)
                || code == 0x20
                || code == 0x85
                || code == 0xA0
                || code == 0x1680
                || (0x2000..=0x200A).contains(&code)
                || code == 0x2028
                || code == 0x2029
                || code == 0x202F
                || code == 0x205F
                || code == 0x3000;

            assert_eq!(remove_whitespace(&c.to_string()).is_empty(), white, "U+{:04X}", code);
        }
    }
}

#[test]
fn it_should_remove_whitespace() {
    assert_eq!(remove_whitespace(" a b\tc\nd "), "abcd");
    assert_eq!(remove_whitespace(""), "");
    assert_eq!(remove_whitespace("   "), "");
    assert_eq!(remove_whitespace("chapter"), "chapter");
    assert_eq!(remove_whitespace("a\u{a0}b\u{2003}c"), "abc");
}
