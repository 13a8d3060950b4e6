use shimmy::json::Json;
use shimmy::json_text::parse_json;

#[test]
fn parses_an_object_with_a_string() {
    let j = parse_json("{\"a\": \"b\"}").unwrap();
    assert_eq!(j.get("a").and_then(|v| v.as_str()), Some("b"));
    assert_eq!(j.get("c"), None);
}

#[test]
fn rejects_text_that_is_not_json() {
    assert_eq!(parse_json("not json at all"), None);
    assert_eq!(parse_json(""), None);
}

#[test]
fn reads_numbers_in_all_three_ways() {
    let j = parse_json("[1, -2, 0.5]").unwrap();
    let items = j.as_array().unwrap();
    assert_eq!(items.len(), 3);
    assert_eq!(items[0].as_u64(), Some(1));
    assert_eq!(items[0].as_f64().map(|f| f64::from_bits(f.bits)), Some(1.0));
    assert_eq!(items[1].as_u64(), None);
    assert_eq!(items[1].as_f64().map(|f| f64::from_bits(f.bits)), Some(-2.0));
    assert_eq!(items[2].as_f64().map(|f| f64::from_bits(f.bits)), Some(0.5));
    assert!(matches!(items[2], Json::Number(n) if n.signed.is_none()));
}

#[test]
fn nested_numbers_are_read_as_the_parser_reads_them() {
    let mut state: u64 = 0x9E3779B97F4A7C15;
    let mut tried: u32 = 0;
    while tried < 3000 {
        state = state.wrapping_mul(6364136223846793005).wrapping_add(1442695040888963407);
        let f = f64::from_bits(state);
        if !f.is_finite() {
            continue;
        }
        tried += 1;
        let written = format!("{:e}", f);
        let direct: serde_json::Value = serde_json::from_str(&written).unwrap();
        let nested = format!("[[{{\"a\":[{{\"b\":{}}}]}}]]", written);
        let tree = parse_json(&nested).unwrap();
        let leaf = tree.as_array().unwrap()[0].as_array().unwrap()[0]
            .get("a")
            .unwrap()
            .as_array()
            .unwrap()[0]
            .get("b")
            .unwrap()
            .as_f64()
            .unwrap();
        assert_eq!(Some(leaf.bits), direct.as_f64().map(|d| d.to_bits()), "{}", written);
        assert_eq!(leaf.bits, f.to_bits(), "{}", written);
    }
}

#[test]
fn numbers_keep_their_kind_at_any_depth() {
    let tree = parse_json("{\"a\":[18446744073709551615,-9223372036854775808,1.0,-0,1e2,18446744073709551616]}").unwrap();
    let items = tree.get("a").unwrap().as_array().unwrap();
    assert_eq!(items[0].as_u64(), Some(u64::MAX));
    assert!(matches!(items[1], Json::Number(n) if n.signed == Some(i64::MIN) && n.unsigned.is_none()));
    assert!(matches!(items[2], Json::Number(n) if n.signed.is_none() && n.unsigned.is_none()));
    assert_eq!(items[2].as_f64().map(|f| f64::from_bits(f.bits)), Some(1.0));
    assert!(matches!(items[3], Json::Number(n) if n.unsigned.is_none() && n.signed.is_none()));
    assert_eq!(items[4].as_f64().map(|f| f64::from_bits(f.bits)), Some(100.0));
    assert_eq!(items[5].as_u64(), None);
    assert_eq!(items[5].as_f64().map(|f| f64::from_bits(f.bits)), Some(18446744073709551616.0));
}

#[test]
fn strings_survive_every_level() {
    let text = "[[{\"k\\\"\\\\\\u0000é\":[\"v\\n\\t\\u001f\\ud83d\\ude00\\\"\"]}]]";
    let tree = parse_json(text).unwrap();
    let object = &tree.as_array().unwrap()[0].as_array().unwrap()[0];
    let members = object.as_object().unwrap();
    assert_eq!(members[0].0, "k\"\\\u{0}é");
    assert_eq!(members[0].1.as_array().unwrap()[0].as_str(), Some("v\n\t\u{1f}😀\""));
}
