use nyoom_json::{Null, Preformatted, Serializer, SingleValueSerializer, UnescapedStr};

#[test]
fn empty_array() {
    let mut out = String::new();
    let mut ser = Serializer::new(&mut out);
    let arr = ser.array();
    arr.end();
    ser.end();
    assert_eq!(out, "[]");
}

#[test]
fn array_of_one_has_no_comma() {
    let mut out = String::new();
    let mut ser = Serializer::new(&mut out);
    let mut arr = ser.array();
    arr.add(1);
    arr.end();
    ser.end();
    assert_eq!(out, "[1]");
}

#[test]
fn array_of_many() {
    let mut out = String::new();
    let mut ser = Serializer::new(&mut out);
    let mut arr = ser.array();
    arr.add("friends");
    arr.add("romans");
    arr.add("countrymen");
    arr.end();
    ser.end();
    assert_eq!(out, "[\"friends\",\"romans\",\"countrymen\"]");
    assert_eq!(out.matches(',').count(), 2);
}

#[test]
fn array_of_mixed_values() {
    let mut out = String::new();
    let mut ser = Serializer::new(&mut out);
    let mut arr = ser.array();
    arr.add(1u8);
    arr.add(-2i64);
    arr.add(true);
    arr.add(Null);
    arr.add(());
    arr.add("x");
    arr.add(UnescapedStr::create("y"));
    arr.end();
    ser.end();
    assert_eq!(out, "[1,-2,true,null,null,\"x\",\"y\"]");
}

#[test]
fn extend_keeps_the_order() {
    let mut out = String::new();
    let mut ser = Serializer::new(&mut out);
    let mut arr = ser.array();
    arr.extend(&["friends", "romans", "countrymen"]);
    arr.end();
    ser.end();
    assert_eq!(out, "[\"friends\",\"romans\",\"countrymen\"]");
}

#[test]
fn extend_with_nothing_adds_nothing() {
    let mut out = String::new();
    let mut ser = Serializer::new(&mut out);
    let mut arr = ser.array();
    let none: [u8; 0] = [];
    arr.extend(&none);
    arr.add(1);
    arr.extend(&none);
    arr.end();
    ser.end();
    assert_eq!(out, "[1]");
}

#[test]
fn extend_after_add_and_before_add() {
    let mut out = String::new();
    let mut ser = Serializer::new(&mut out);
    let mut arr = ser.array();
    arr.add(0);
    arr.extend(&[1, 2, 3]);
    arr.extend(&[4]);
    arr.add(5);
    arr.end();
    ser.end();
    assert_eq!(out, "[0,1,2,3,4,5]");
}

#[test]
fn extend_counts_commas() {
    for n in 0usize..6 {
        let vals: Vec<u32> = (0..n as u32).collect();
        let mut out = String::new();
        let mut ser = Serializer::new(&mut out);
        let mut arr = ser.array();
        arr.extend(&vals);
        arr.end();
        ser.end();
        assert!(out.starts_with('['));
        assert!(out.ends_with(']'));
        assert_eq!(out.matches(',').count(), n.saturating_sub(1));
        assert!(!out.starts_with("[,"));
        assert!(!out.ends_with(",]"));
        let parsed: Vec<u32> = serde_json::from_str(&out).unwrap();
        assert_eq!(parsed, vals);
    }
}

#[test]
fn nested_scopes_close_in_reverse_order() {
    let mut out = String::new();
    let mut ser = Serializer::new(&mut out);
    let mut arr = ser.array();
    let mut obj = arr.add_object();
    obj.field("a", 1);
    obj.field("b", 2);
    obj.end();
    arr.add(3);
    arr.end();
    ser.end();
    assert_eq!(out, "[{\"a\":1,\"b\":2},3]");
}

#[test]
fn arrays_in_arrays_keep_their_own_separators() {
    let mut out = String::new();
    let mut ser = Serializer::new(&mut out);
    let mut arr = ser.array();
    let inner = arr.add_array();
    inner.end();
    let mut inner = arr.add_array();
    inner.extend(&[1, 2, 3]);
    inner.end();
    let mut inner = arr.add_array();
    let mut innermost = inner.add_array();
    innermost.add(true);
    innermost.end();
    inner.add(false);
    inner.end();
    arr.end();
    ser.end();
    assert_eq!(out, "[[],[1,2,3],[[true],false]]");
}

#[test]
fn empty_object() {
    let mut out = String::new();
    let mut ser = Serializer::new(&mut out);
    let obj = ser.object();
    obj.end();
    ser.end();
    assert_eq!(out, "{}");
}

#[test]
fn object_fields_in_caller_order() {
    let mut out = String::new();
    let mut ser = Serializer::new(&mut out);
    let mut obj = ser.object();
    obj.field("kind", "cat");
    obj.field("has_been_fed", false);
    obj.field("meow_decibels", 45);
    obj.end();
    ser.end();
    assert_eq!(out, "{\"kind\":\"cat\",\"has_been_fed\":false,\"meow_decibels\":45}");
    assert_eq!(out.matches(':').count(), 3);
    assert_eq!(out.matches(',').count(), 2);
}

#[test]
fn object_of_one_field_has_no_comma() {
    let mut out = String::new();
    let mut ser = Serializer::new(&mut out);
    let mut obj = ser.object();
    obj.field("a", Null);
    obj.end();
    ser.end();
    assert_eq!(out, "{\"a\":null}");
}

#[test]
fn keys_are_escaped_and_not_checked_for_duplicates() {
    let mut out = String::new();
    let mut ser = Serializer::new(&mut out);
    let mut obj = ser.object();
    obj.field("a\"b", 1);
    obj.field("a\"b", 2);
    obj.field(String::from("line\n"), 3);
    obj.field(UnescapedStr::create("tag"), 4);
    obj.end();
    ser.end();
    assert_eq!(out, "{\"a\\\"b\":1,\"a\\\"b\":2,\"line\\n\":3,\"tag\":4}");
}

#[test]
fn object_then_array_field() {
    let mut out = String::new();
    let mut ser = Serializer::new(&mut out);
    let mut obj = ser.object();
    obj.field("name", "cat");
    obj.field("fed", false);
    let mut scores = obj.array_field("scores");
    scores.extend(&[1, 2, 3]);
    scores.end();
    obj.end();
    ser.end();
    assert_eq!(out, "{\"name\":\"cat\",\"fed\":false,\"scores\":[1,2,3]}");
}

#[test]
fn text_field_with_quote_and_newline() {
    let mut out = String::new();
    let mut ser = Serializer::new(&mut out);
    let mut obj = ser.object();
    obj.field("line", "he said \"hi\"\n");
    obj.end();
    ser.end();
    assert_eq!(out, "{\"line\":\"he said \\\"hi\\\"\\n\"}");
}

#[test]
fn object_field_and_array_field() {
    let mut out = String::new();
    let mut ser = Serializer::new(&mut out);
    let mut arr = ser.array();
    let mut obj = arr.add_object();
    obj.field("kitten", true);
    let mut bed = obj.object_field("bed");
    bed.field("cozy", true);
    bed.field("wear_and_tear", 2);
    bed.end();
    let mut toys = obj.array_field("toys");
    toys.extend(&["mouse", "ball", "string", "box", "scratcher"]);
    toys.end();
    let empty = obj.object_field("empty");
    empty.end();
    obj.end();
    arr.end();
    ser.end();
    assert_eq!(
        out,
        "[{\"kitten\":true,\"bed\":{\"cozy\":true,\"wear_and_tear\":2},\"toys\":[\"mouse\",\"ball\",\"string\",\"box\",\"scratcher\"],\"empty\":{}}]"
    );
}

#[test]
fn nested_field_first_still_separates_the_next() {
    let mut out = String::new();
    let mut ser = Serializer::new(&mut out);
    let mut obj = ser.object();
    let inner = obj.array_field("a");
    inner.end();
    obj.field("b", 1);
    obj.end();
    ser.end();
    assert_eq!(out, "{\"a\":[],\"b\":1}");
}

#[test]
fn add_complex_with_an_object() {
    let mut out = String::new();
    let mut ser = Serializer::new(&mut out);
    let mut arr = ser.array();
    arr.add(0);
    let got = arr.add_complex(|ser| {
        let mut obj = ser.object();
        obj.field("kitten", true);
        obj.field("cuteness", 10);
        obj.end();
        7
    });
    arr.add_complex(|ser| ser.write("plain"));
    arr.end();
    ser.end();
    assert_eq!(got, 7);
    assert_eq!(out, "[0,{\"kitten\":true,\"cuteness\":10},\"plain\"]");
}

#[test]
fn complex_field_with_an_array() {
    let mut out = String::new();
    let mut ser = Serializer::new(&mut out);
    let mut obj = ser.object();
    let got = obj.complex_field("numbers", |ser| {
        let mut arr = ser.array();
        arr.add(1);
        arr.add(2);
        arr.add("three");
        arr.end();
        "done"
    });
    obj.complex_field("after", |ser| ser.write(true));
    obj.end();
    ser.end();
    assert_eq!(got, "done");
    assert_eq!(out, "{\"numbers\":[1,2,\"three\"],\"after\":true}");
}

#[test]
fn abandoned_slot_holds_null() {
    let mut out = String::new();
    let mut ser = Serializer::new(&mut out);
    let mut arr = ser.array();
    arr.add_complex(|_slot| {});
    let early = arr.add_complex(|slot| {
        if slot.written() {
            slot.write(1);
        }
        "left early"
    });
    let mut obj = arr.add_object();
    obj.complex_field("left", |_slot| {});
    obj.field("next", 1);
    obj.end();
    arr.add(2);
    arr.end();
    ser.end();
    assert_eq!(early, "left early");
    assert_eq!(out, "[null,null,{\"left\":null,\"next\":1},2]");
}

#[test]
fn single_value_released_unwritten_is_null() {
    let mut out = String::new();
    let slot = SingleValueSerializer::new(&mut out);
    assert!(!slot.written());
    slot.end();
    assert_eq!(out, "null");

    let mut out = String::from("[1,");
    let slot = SingleValueSerializer::new(&mut out);
    slot.end();
    assert_eq!(out, "[1,null");
}

#[test]
fn single_value_written_once_is_that_token() {
    let mut out = String::new();
    let mut slot = SingleValueSerializer::new(&mut out);
    slot.write(-17);
    assert!(slot.written());
    slot.end();
    assert_eq!(out, "-17");

    let mut out = String::new();
    let mut slot = SingleValueSerializer::new(&mut out);
    slot.write("a\tb");
    slot.end();
    assert_eq!(out, "\"a\\tb\"");

    let mut out = String::new();
    let mut slot = SingleValueSerializer::new(&mut out);
    slot.write(Null);
    slot.end();
    assert_eq!(out, "null");
}

#[test]
fn single_value_as_array_or_object() {
    let mut out = String::new();
    let mut slot = SingleValueSerializer::new(&mut out);
    let mut arr = slot.array();
    arr.add(1);
    arr.add(2);
    arr.end();
    assert!(slot.written());
    slot.end();
    assert_eq!(out, "[1,2]");

    let mut out = String::new();
    let mut slot = SingleValueSerializer::new(&mut out);
    let mut obj = slot.object();
    obj.field("a", 1);
    obj.end();
    slot.end();
    assert_eq!(out, "{\"a\":1}");
}

#[test]
fn top_level_primitive() {
    let mut out = String::new();
    let mut ser = Serializer::new(&mut out);
    ser.write(3);
    ser.end();
    assert_eq!(out, "3");
}

#[test]
fn serializer_end_writes_nothing() {
    let mut out = String::new();
    let ser = Serializer::new(&mut out);
    ser.end();
    assert_eq!(out, "");
}

#[test]
fn whole_document_parses() {
    let mut out = String::new();
    let mut ser = Serializer::new(&mut out);
    let mut obj = ser.object();
    obj.field("name", "c\"a\\t\n");
    obj.field("n", i64::MIN);
    let mut list = obj.array_field("list");
    list.add(Null);
    list.add_complex(|_slot| {});
    list.end();
    obj.end();
    ser.end();
    let value: serde_json::Value = serde_json::from_str(&out).unwrap();
    assert_eq!(value["name"].as_str(), Some("c\"a\\t\n"));
    assert_eq!(value["n"].as_i64(), Some(i64::MIN));
    assert_eq!(value["list"].as_array().map(|l| l.len()), Some(2));
    assert!(value["list"][0].is_null());
    assert!(value["list"][1].is_null());
}

#[test]
fn preformatted_tokens_are_written_as_they_are() {
    let mut out = String::new();
    let mut ser = Serializer::new(&mut out);
    let mut arr = ser.array();
    arr.add(Preformatted::create("1.5"));
    arr.add(Preformatted::create("-2e10"));
    arr.add(1);
    arr.end();
    ser.end();
    assert_eq!(out, "[1.5,-2e10,1]");
}

#[test]
fn owned_and_borrowed_strings_as_keys() {
    let name = String::from("na\\me");
    let mut out = String::new();
    let mut ser = Serializer::new(&mut out);
    let mut obj = ser.object();
    obj.field(&name, 1);
    let inner = obj.array_field(&name);
    inner.end();
    obj.field(name, 2);
    obj.end();
    ser.end();
    assert_eq!(out, "{\"na\\\\me\":1,\"na\\\\me\":[],\"na\\\\me\":2}");
}
