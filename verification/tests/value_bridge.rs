//! The value bridge on concrete values: encoding, decoding, and the
//! extraction of tool results with its JSON-parsing fallback.

use rhaicp::hostloop::{extract_tool_result, ToolContent};
use rhaicp::value::{dynamic_to_json, json_to_dynamic, DynValue, StructuredValue};

fn obj_get<'a>(v: &'a StructuredValue, key: &str) -> &'a StructuredValue {
    if let StructuredValue::Obj(pairs) = v {
        for (k, x) in pairs {
            if k == key {
                return x;
            }
        }
    }
    panic!("no field {} in {:?}", key, v);
}

#[test]
fn encode_maps_each_dynamic_kind() {
    let v = DynValue::Obj(vec![
        ("u".to_string(), DynValue::Unit),
        ("b".to_string(), DynValue::Bool(true)),
        ("i".to_string(), DynValue::Int(-7)),
        ("f".to_string(), DynValue::Float(6.5f64.to_bits())),
        ("s".to_string(), DynValue::Str("hi".to_string())),
        (
            "a".to_string(),
            DynValue::Arr(vec![DynValue::Int(1), DynValue::Int(2)]),
        ),
    ]);
    let encoded = dynamic_to_json(&v);
    assert!(matches!(obj_get(&encoded, "u"), StructuredValue::Null));
    assert!(matches!(obj_get(&encoded, "b"), StructuredValue::Bool(true)));
    assert!(matches!(obj_get(&encoded, "i"), StructuredValue::Int(-7)));
    match obj_get(&encoded, "f") {
        StructuredValue::Float(bits) => assert_eq!(f64::from_bits(*bits), 6.5),
        other => panic!("expected float, got {:?}", other),
    }
    match obj_get(&encoded, "s") {
        StructuredValue::Str(s) => assert_eq!(s, "hi"),
        other => panic!("expected string, got {:?}", other),
    }
    match obj_get(&encoded, "a") {
        StructuredValue::Arr(items) => {
            assert_eq!(items.len(), 2);
            assert!(matches!(items[0], StructuredValue::Int(1)));
            assert!(matches!(items[1], StructuredValue::Int(2)));
        }
        other => panic!("expected array, got {:?}", other),
    }
}

#[test]
fn encode_collapses_non_finite_floats_to_null() {
    let nan = dynamic_to_json(&DynValue::Float(f64::NAN.to_bits()));
    assert!(matches!(nan, StructuredValue::Null));
    let inf = dynamic_to_json(&DynValue::Float(f64::INFINITY.to_bits()));
    assert!(matches!(inf, StructuredValue::Null));
    let neg_inf = dynamic_to_json(&DynValue::Float(f64::NEG_INFINITY.to_bits()));
    assert!(matches!(neg_inf, StructuredValue::Null));
}

#[test]
fn encode_renders_opaque_values_as_strings() {
    let v = dynamic_to_json(&DynValue::Opaque("Instant { .. }".to_string()));
    match v {
        StructuredValue::Str(s) => assert_eq!(s, "Instant { .. }"),
        other => panic!("expected string, got {:?}", other),
    }
}

#[test]
fn decode_keeps_numbers_as_numbers() {
    let d = json_to_dynamic(&StructuredValue::Int(300));
    match d {
        DynValue::Int(i) => assert_eq!(i, 300),
        other => panic!("expected integer, got {:?}", other),
    }
    let f = json_to_dynamic(&StructuredValue::Float(2.5f64.to_bits()));
    match f {
        DynValue::Float(bits) => assert_eq!(f64::from_bits(bits), 2.5),
        other => panic!("expected float, got {:?}", other),
    }
}

#[test]
fn decode_object_fields_are_addressable() {
    let v = StructuredValue::Obj(vec![
        (
            "name".to_string(),
            StructuredValue::Str("User42".to_string()),
        ),
        ("age".to_string(), StructuredValue::Int(62)),
    ]);
    let d = json_to_dynamic(&v);
    match d {
        DynValue::Obj(pairs) => {
            assert_eq!(pairs.len(), 2);
            assert_eq!(pairs[0].0, "name");
            match &pairs[0].1 {
                DynValue::Str(s) => assert_eq!(s, "User42"),
                other => panic!("expected string, got {:?}", other),
            }
            assert_eq!(pairs[1].0, "age");
            assert!(matches!(pairs[1].1, DynValue::Int(62)));
        }
        other => panic!("expected map, got {:?}", other),
    }
}

#[test]
fn roundtrip_preserves_faithful_values() {
    let v = DynValue::Arr(vec![
        DynValue::Int(1),
        DynValue::Str("x".to_string()),
        DynValue::Bool(false),
    ]);
    let back = json_to_dynamic(&dynamic_to_json(&v));
    match back {
        DynValue::Arr(items) => {
            assert!(matches!(items[0], DynValue::Int(1)));
            assert!(matches!(&items[1], DynValue::Str(s) if s == "x"));
            assert!(matches!(items[2], DynValue::Bool(false)));
        }
        other => panic!("expected array, got {:?}", other),
    }
}

#[test]
fn structured_payload_wins() {
    let structured = StructuredValue::Int(5);
    let content = vec![ToolContent::Text("999".to_string())];
    let r = extract_tool_result(Some(structured), &content).unwrap();
    assert!(matches!(r, StructuredValue::Int(5)));
}

#[test]
fn text_content_parses_as_json_number() {
    let content = vec![ToolContent::Text("300".to_string())];
    let r = extract_tool_result(None, &content).unwrap();
    assert!(matches!(r, StructuredValue::Int(300)));
}

#[test]
fn text_content_parses_as_json_float() {
    let content = vec![ToolContent::Text("6.5".to_string())];
    let r = extract_tool_result(None, &content).unwrap();
    match r {
        StructuredValue::Float(bits) => assert_eq!(f64::from_bits(bits), 6.5),
        other => panic!("expected float, got {:?}", other),
    }
}

#[test]
fn text_content_parses_as_json_object() {
    let content = vec![ToolContent::Text(
        "{\"name\":\"User42\",\"age\":62}".to_string(),
    )];
    let r = extract_tool_result(None, &content).unwrap();
    match obj_get(&r, "name") {
        StructuredValue::Str(s) => assert_eq!(s, "User42"),
        other => panic!("expected string, got {:?}", other),
    }
    assert!(matches!(obj_get(&r, "age"), StructuredValue::Int(62)));
}

#[test]
fn unparsable_text_stays_a_string() {
    let content = vec![ToolContent::Text("Echo: test".to_string())];
    let r = extract_tool_result(None, &content).unwrap();
    match r {
        StructuredValue::Str(s) => assert_eq!(s, "Echo: test"),
        other => panic!("expected string, got {:?}", other),
    }
}

#[test]
fn empty_content_is_an_error() {
    let r = extract_tool_result(None, &Vec::new());
    assert_eq!(r.unwrap_err(), "Tool returned no content");
}

#[test]
fn non_text_first_content_is_an_error() {
    let content = vec![
        ToolContent::Other,
        ToolContent::Text("ignored".to_string()),
    ];
    let r = extract_tool_result(None, &content);
    assert_eq!(r.unwrap_err(), "Tool returned no content");
}
