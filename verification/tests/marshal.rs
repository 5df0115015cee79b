use micro_mcp::host::{host_value_to_json, json_to_host_value, HostValue};
use micro_mcp::json::{copy_json, obj_get, text_eq, Json};

fn sample_json() -> Json {
    Json::Obj(vec![
        (String::from("name"), Json::Str(String::from("demo"))),
        (String::from("count"), Json::Int(42)),
        (String::from("flag"), Json::Bool(true)),
        (String::from("nothing"), Json::Null),
        (
            String::from("items"),
            Json::Arr(vec![Json::Int(1), Json::Str(String::from("two")), Json::Null]),
        ),
        (
            String::from("nested"),
            Json::Obj(vec![(String::from("inner"), Json::Arr(vec![Json::Bool(false)]))]),
        ),
    ])
}

#[test]
fn json_host_round_trip_preserves_value() {
    let j = sample_json();
    let h = json_to_host_value(&j);
    let back = host_value_to_json(&h).expect("round trip encodes");
    assert_eq!(back, j);
}

#[test]
fn host_json_round_trip_preserves_representable_value() {
    let h = HostValue::Hash(vec![
        (
            HostValue::Str(String::from("a")),
            HostValue::Arr(vec![HostValue::Int(5), HostValue::Nil]),
        ),
        (HostValue::Str(String::from("b")), HostValue::Bool(false)),
    ]);
    let j = host_value_to_json(&h).expect("representable value encodes");
    let back = json_to_host_value(&j);
    assert_eq!(back, h);
}

#[test]
fn symbol_encodes_as_its_name() {
    let h = HostValue::Hash(vec![(
        HostValue::Sym(String::from("key")),
        HostValue::Sym(String::from("value")),
    )]);
    let j = host_value_to_json(&h).expect("symbol keys and values encode");
    assert_eq!(
        j,
        Json::Obj(vec![(String::from("key"), Json::Str(String::from("value")))])
    );
}

#[test]
fn non_string_hash_key_fails_marshalling() {
    let h = HostValue::Hash(vec![(HostValue::Int(3), HostValue::Nil)]);
    let e = host_value_to_json(&h).expect_err("integer key must not encode");
    let msg = e.message();
    assert!(msg.contains("marshalling failed"));
    assert!(msg.contains("non-string key"));
}

#[test]
fn nested_marshalling_error_propagates() {
    let h = HostValue::Arr(vec![
        HostValue::Int(1),
        HostValue::Hash(vec![(HostValue::Bool(true), HostValue::Nil)]),
    ]);
    let e = host_value_to_json(&h).expect_err("nested bad key must fail");
    assert!(e.message().contains("non-string key"));
}

#[test]
fn copy_json_is_deep_and_equal() {
    let j = sample_json();
    let c = copy_json(&j);
    assert_eq!(c, j);
}

#[test]
fn obj_get_finds_first_occurrence() {
    let fields = vec![
        (String::from("k"), Json::Int(1)),
        (String::from("k"), Json::Int(2)),
        (String::from("other"), Json::Int(3)),
    ];
    assert_eq!(obj_get(&fields, "k"), Some(&Json::Int(1)));
    assert_eq!(obj_get(&fields, "missing"), None);
    assert!(text_eq(&String::from("abc"), "abc"));
    assert!(!text_eq(&String::from("abc"), "abd"));
}

#[test]
fn empty_values_round_trip() {
    let empty_obj = Json::Obj(vec![]);
    let h = json_to_host_value(&empty_obj);
    assert_eq!(h, HostValue::Hash(vec![]));
    assert_eq!(host_value_to_json(&h).unwrap(), empty_obj);

    let empty_arr = Json::Arr(vec![]);
    let h = json_to_host_value(&empty_arr);
    assert_eq!(h, HostValue::Arr(vec![]));
    assert_eq!(host_value_to_json(&h).unwrap(), empty_arr);
}
