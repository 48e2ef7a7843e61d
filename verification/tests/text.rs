use microc::text::decimal;
use microc::text::hexadecimal;
use microc::text::parse_i32;
use microc::text::push_dec;
use microc::text::push_hex_word;
use microc::text::push_int;
use microc::three_ac::Label;

#[test]
fn decimal_text_of_integers() {
    assert_eq!(decimal(0), "0");
    assert_eq!(decimal(7), "7");
    assert_eq!(decimal(10), "10");
    assert_eq!(decimal(-4), "-4");
    assert_eq!(decimal(2147483647), "2147483647");
    assert_eq!(decimal(-2147483648), "-2147483648");
    assert_eq!(decimal(i64::MIN), "-9223372036854775808");
    let mut s = String::from("x");
    push_dec(&mut s, 4294967295);
    push_int(&mut s, -12);
    assert_eq!(s, "x4294967295-12");
}

#[test]
fn words_are_eight_hexadecimal_digits() {
    assert_eq!(hexadecimal(0), "00000000");
    assert_eq!(hexadecimal(0x20000000), "20000000");
    assert_eq!(hexadecimal(0x1000000c), "1000000c");
    assert_eq!(hexadecimal(255), "000000ff");
    assert_eq!(hexadecimal(-1), "ffffffff");
    assert_eq!(hexadecimal(i32::MIN), "80000000");
    let mut s = String::from("0x");
    push_hex_word(&mut s, 0x7fffffff);
    assert_eq!(s, "0x7fffffff");
}

#[test]
fn integer_literals_are_read_like_the_standard_library_reads_them() {
    for text in ["0", "7", "42", "007", "+5", "-5", "-0", "2147483647", "-2147483648"] {
        assert_eq!(parse_i32(text), text.parse::<i32>().ok(), "{text}");
    }
    for text in ["", "-", "+", "2147483648", "-2147483649", "99999999999999999999", "1a", "a1",
        " 1", "1 ", "--1", "1.0", "٣"]
    {
        assert_eq!(parse_i32(text), None, "{text}");
        assert!(text.parse::<i32>().is_err(), "{text}");
    }
    assert_eq!(parse_i32("42"), Some(42));
    assert_eq!(parse_i32("-2147483648"), Some(i32::MIN));
}

#[test]
fn labels_are_named_by_kind_and_number() {
    assert_eq!(Label::FunctionHead(0).to_text(), "func_0");
    assert_eq!(Label::FunctionTail(12).to_text(), "func_tail_12");
    assert_eq!(Label::BlockBranch(3).to_text(), "branch_3");
    assert_eq!(Label::BlockJump(4294967295).to_text(), "jump_4294967295");
    assert_eq!(Label::FunctionHead(-1).to_text(), "func_-1");
    let mut s = String::from("J ");
    Label::BlockJump(5).push_to(&mut s);
    assert_eq!(s, "J jump_5");
}
