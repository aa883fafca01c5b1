use nyoom_json::{JsonBuffer, Null, Serializer, WriteToJson};

fn token<V: WriteToJson<String>>(val: V) -> String {
    let mut out = String::new();
    let mut ser = Serializer::new(&mut out);
    ser.write(val);
    ser.end();
    out
}

#[test]
fn zero_is_a_single_digit() {
    assert_eq!(token(0u8), "0");
    assert_eq!(token(0u16), "0");
    assert_eq!(token(0u32), "0");
    assert_eq!(token(0u64), "0");
    assert_eq!(token(0i8), "0");
    assert_eq!(token(0i16), "0");
    assert_eq!(token(0i32), "0");
    assert_eq!(token(0i64), "0");
    assert_eq!(token(-0i32), "0");
}

#[test]
fn unsigned_limits() {
    assert_eq!(token(u8::MAX), "255");
    assert_eq!(token(u16::MAX), "65535");
    assert_eq!(token(u32::MAX), "4294967295");
    assert_eq!(token(u64::MAX), "18446744073709551615");
}

#[test]
fn signed_limits() {
    assert_eq!(token(i8::MIN), "-128");
    assert_eq!(token(i8::MAX), "127");
    assert_eq!(token(i16::MIN), "-32768");
    assert_eq!(token(i16::MAX), "32767");
    assert_eq!(token(i32::MIN), "-2147483648");
    assert_eq!(token(i32::MAX), "2147483647");
    assert_eq!(token(i64::MIN), "-9223372036854775808");
    assert_eq!(token(i64::MAX), "9223372036854775807");
}

#[test]
fn integers_have_no_leading_zeros() {
    assert_eq!(token(7), "7");
    assert_eq!(token(10), "10");
    assert_eq!(token(45), "45");
    assert_eq!(token(100), "100");
    assert_eq!(token(1001u64), "1001");
    assert_eq!(token(-1), "-1");
    assert_eq!(token(-10), "-10");
    assert_eq!(token(-909i64), "-909");
}

#[test]
fn integers_read_back() {
    let signed = [i64::MIN, -1_000_000_007, -10, -9, -1, 0, 1, 9, 10, 99, 100, 123_456_789, i64::MAX];
    for v in signed {
        let text = token(v);
        assert_eq!(text.parse::<i64>().unwrap(), v);
        assert_eq!(text, v.to_string());
    }
    let unsigned = [0u64, 1, 9, 10, 4_294_967_296, u64::MAX];
    for v in unsigned {
        let text = token(v);
        assert_eq!(text.parse::<u64>().unwrap(), v);
        assert_eq!(text, v.to_string());
    }
}

#[test]
fn small_integers_read_back() {
    for v in i8::MIN..=i8::MAX {
        assert_eq!(token(v).parse::<i8>().unwrap(), v);
    }
    for v in u8::MIN..=u8::MAX {
        assert_eq!(token(v).parse::<u8>().unwrap(), v);
    }
}

#[test]
fn booleans() {
    assert_eq!(token(true), "true");
    assert_eq!(token(false), "false");
}

#[test]
fn null_and_unit() {
    assert_eq!(token(Null), "null");
    assert_eq!(token(()), "null");
}

#[test]
fn a_reference_is_written_as_its_value() {
    let n: i32 = -12;
    let b = true;
    assert_eq!(token(&n), "-12");
    assert_eq!(token(&b), "true");
    assert_eq!(token(&Some(3u64).unwrap()), "3");
    let text: &str = "a\"b";
    assert_eq!(token(&text), "\"a\\\"b\"");
}

#[test]
fn writing_appends_to_what_the_buffer_holds() {
    let mut out = String::from("x = ");
    let mut ser = Serializer::new(&mut out);
    ser.write(12u8);
    ser.end();
    assert_eq!(out, "x = 12");
}

#[test]
fn string_buffer_appends() {
    let mut out = String::new();
    JsonBuffer::push(&mut out, 'a');
    JsonBuffer::push_str(&mut out, "bc");
    JsonBuffer::push(&mut out, 'é');
    JsonBuffer::push_str(&mut out, "");
    assert_eq!(out, "abcé");
}

#[test]
fn reserving_keeps_the_contents() {
    let mut out = String::from("abc");
    JsonBuffer::reserve(&mut out, 64);
    assert_eq!(out, "abc");
    JsonBuffer::reserve(&mut out, 0);
    assert_eq!(out, "abc");
    JsonBuffer::reserve(&mut out, usize::MAX);
    assert_eq!(out, "abc");
}
