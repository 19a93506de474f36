use disassembler::decimal::{append_signed, append_unsigned};

fn unsigned(n: u32) -> String {
    let mut out = String::new();
    append_unsigned(&mut out, n);
    out
}

fn signed(v: i32) -> String {
    let mut out = String::new();
    append_signed(&mut out, v);
    out
}

#[test]
fn unsigned_numerals() {
    assert_eq!(unsigned(0), "0");
    assert_eq!(unsigned(7), "7");
    assert_eq!(unsigned(9), "9");
    assert_eq!(unsigned(10), "10");
    assert_eq!(unsigned(99), "99");
    assert_eq!(unsigned(100), "100");
    assert_eq!(unsigned(1234567890), "1234567890");
    assert_eq!(unsigned(u32::MAX), "4294967295");
}

#[test]
fn signed_numerals() {
    assert_eq!(signed(0), "0");
    assert_eq!(signed(5), "5");
    assert_eq!(signed(-1), "-1");
    assert_eq!(signed(-10), "-10");
    assert_eq!(signed(32767), "32767");
    assert_eq!(signed(-32768), "-32768");
    assert_eq!(signed(i32::MAX), "2147483647");
    assert_eq!(signed(i32::MIN), "-2147483648");
}

#[test]
fn numerals_are_appended() {
    let mut out = "x = ".to_string();
    append_signed(&mut out, -42);
    out.push_str(", y = ");
    append_unsigned(&mut out, 305);
    assert_eq!(out, "x = -42, y = 305");
}

#[test]
fn numerals_agree_with_formatting() {
    for n in (0u32..70000).chain([99999, 100000, 67108863, 67108864, 999999999, 1000000000]) {
        assert_eq!(unsigned(n), format!("{}", n));
    }
    for v in -40000i32..40000 {
        assert_eq!(signed(v), format!("{}", v));
    }
}
