use micro_mcp::json::Json;
use micro_mcp::schema::{parse_prompt_arguments, parse_tool_input_schema};

fn schema_input() -> Json {
    Json::Obj(vec![
        (
            String::from("required"),
            Json::Arr(vec![
                Json::Str(String::from("a")),
                Json::Int(5),
                Json::Str(String::from("b")),
                Json::Null,
            ]),
        ),
        (
            String::from("properties"),
            Json::Obj(vec![
                (
                    String::from("a"),
                    Json::Obj(vec![(
                        String::from("type"),
                        Json::Str(String::from("integer")),
                    )]),
                ),
                (String::from("bad"), Json::Int(7)),
                (
                    String::from("b"),
                    Json::Obj(vec![(String::from("type"), Json::Str(String::from("string")))]),
                ),
            ]),
        ),
    ])
}

#[test]
fn tool_schema_keeps_strings_and_object_properties() {
    let s = parse_tool_input_schema(&schema_input());
    assert_eq!(s.required, vec![String::from("a"), String::from("b")]);
    assert_eq!(s.properties.len(), 2);
    assert_eq!(s.properties[0].0, "a");
    assert_eq!(s.properties[1].0, "b");
}

#[test]
fn tool_schema_of_non_object_is_empty() {
    let s = parse_tool_input_schema(&Json::Str(String::from("nope")));
    assert!(s.required.is_empty());
    assert!(s.properties.is_empty());
    let s = parse_tool_input_schema(&Json::Null);
    assert!(s.required.is_empty());
    assert!(s.properties.is_empty());
}

#[test]
fn tool_schema_with_wrong_shapes_degrades() {
    let j = Json::Obj(vec![
        (String::from("required"), Json::Str(String::from("a"))),
        (String::from("properties"), Json::Arr(vec![])),
    ]);
    let s = parse_tool_input_schema(&j);
    assert!(s.required.is_empty());
    assert!(s.properties.is_empty());
}

#[test]
fn prompt_arguments_drop_items_without_name() {
    let j = Json::Arr(vec![
        Json::Obj(vec![
            (String::from("name"), Json::Str(String::from("who"))),
            (String::from("description"), Json::Str(String::from("whom to greet"))),
            (String::from("required"), Json::Bool(true)),
            (String::from("title"), Json::Str(String::from("Who"))),
        ]),
        Json::Obj(vec![(String::from("description"), Json::Str(String::from("nameless")))]),
        Json::Int(9),
        Json::Obj(vec![
            (String::from("name"), Json::Str(String::from("bare"))),
            (String::from("required"), Json::Str(String::from("yes"))),
        ]),
    ]);
    let args = parse_prompt_arguments(&j);
    assert_eq!(args.len(), 2);
    assert_eq!(args[0].name, "who");
    assert_eq!(args[0].description.as_deref(), Some("whom to greet"));
    assert_eq!(args[0].required, Some(true));
    assert_eq!(args[0].title.as_deref(), Some("Who"));
    assert_eq!(args[1].name, "bare");
    assert_eq!(args[1].description, None);
    assert_eq!(args[1].required, None);
    assert_eq!(args[1].title, None);
}

#[test]
fn prompt_arguments_of_non_array_is_empty() {
    let args = parse_prompt_arguments(&Json::Obj(vec![]));
    assert!(args.is_empty());
}
