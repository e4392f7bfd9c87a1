use claude_hooks::{extract_questions_with_options, JsonValue};

fn s(x: &str) -> JsonValue {
    JsonValue::Str(x.to_string())
}

fn obj(members: Vec<(&str, JsonValue)>) -> JsonValue {
    JsonValue::Object(members.into_iter().map(|(k, v)| (k.to_string(), v)).collect())
}

fn arr(items: Vec<JsonValue>) -> JsonValue {
    JsonValue::Array(items)
}

#[test]
fn test_extract_questions_with_options_single_question() {
    let tool_input = obj(vec![(
        "questions",
        arr(vec![obj(vec![
            ("question", s("Which library should we use?")),
            ("header", s("Library")),
            (
                "options",
                arr(vec![
                    obj(vec![("label", s("Option A")), ("description", s("Fast and simple"))]),
                    obj(vec![("label", s("Option B")), ("description", s("Full featured"))]),
                ]),
            ),
        ])]),
    )]);

    let result = extract_questions_with_options(&tool_input);
    assert!(result.contains("*Q1: [Library]* Which library should we use?"));
    assert!(result.contains("1. Option A - Fast and simple"));
    assert!(result.contains("2. Option B - Full featured"));
}

#[test]
fn test_extract_questions_with_options_multiple_questions() {
    let tool_input = obj(vec![(
        "questions",
        arr(vec![
            obj(vec![
                ("question", s("First question?")),
                ("header", s("Q1")),
                (
                    "options",
                    arr(vec![
                        obj(vec![("label", s("Yes")), ("description", s("Agree"))]),
                        obj(vec![("label", s("No")), ("description", s("Disagree"))]),
                    ]),
                ),
            ]),
            obj(vec![
                ("question", s("Second question?")),
                ("header", s("Q2")),
                ("options", arr(vec![obj(vec![("label", s("A"))]), obj(vec![("label", s("B"))])])),
            ]),
        ]),
    )]);

    let result = extract_questions_with_options(&tool_input);
    assert!(result.contains("*Q1: [Q1]* First question?"));
    assert!(result.contains("*Q2: [Q2]* Second question?"));
}

#[test]
fn test_extract_questions_with_options_no_header() {
    let tool_input = obj(vec![(
        "questions",
        arr(vec![obj(vec![
            ("question", s("Simple question?")),
            ("options", arr(vec![obj(vec![("label", s("Yes"))]), obj(vec![("label", s("No"))])])),
        ])]),
    )]);

    let result = extract_questions_with_options(&tool_input);
    assert!(result.contains("*Q1:* Simple question?"));
}

#[test]
fn test_extract_questions_with_options_no_questions() {
    let tool_input = obj(vec![]);
    let result = extract_questions_with_options(&tool_input);
    assert_eq!(result, "N/A");
}

#[test]
fn test_extract_questions_with_options_empty_questions() {
    let tool_input = obj(vec![("questions", arr(vec![]))]);
    let result = extract_questions_with_options(&tool_input);
    assert_eq!(result, "");
}

#[test]
fn test_extract_questions_option_without_description() {
    let tool_input = obj(vec![(
        "questions",
        arr(vec![obj(vec![
            ("question", s("Pick one?")),
            ("header", s("Choice")),
            ("options", arr(vec![obj(vec![("label", s("Alpha"))]), obj(vec![("label", s("Beta"))])])),
        ])]),
    )]);

    let result = extract_questions_with_options(&tool_input);
    assert!(result.contains("1. Alpha"));
    assert!(result.contains("2. Beta"));
    assert!(!result.contains(" - ")); // No description separator
}

#[test]
fn extract_questions_test_test_extract_questions_with_options_single_question() {
    let tool_input = obj(vec![(
        "questions",
        arr(vec![obj(vec![
            ("question", s("Which library should we use?")),
            ("header", s("Library")),
            (
                "options",
                arr(vec![
                    obj(vec![("label", s("Option A")), ("description", s("Fast and simple"))]),
                    obj(vec![("label", s("Option B")), ("description", s("Full featured"))]),
                ]),
            ),
        ])]),
    )]);

    let result = extract_questions_with_options(&tool_input);
    assert!(result.contains("*Q1: [Library]* Which library should we use?"));
    assert!(result.contains("1. Option A - Fast and simple"));
    assert!(result.contains("2. Option B - Full featured"));
}

#[test]
fn extract_questions_test_test_extract_questions_with_options_multiple_questions() {
    let tool_input = obj(vec![(
        "questions",
        arr(vec![
            obj(vec![
                ("question", s("First question?")),
                ("header", s("Q1")),
                (
                    "options",
                    arr(vec![
                        obj(vec![("label", s("Yes")), ("description", s("Agree"))]),
                        obj(vec![("label", s("No")), ("description", s("Disagree"))]),
                    ]),
                ),
            ]),
            obj(vec![
                ("question", s("Second question?")),
                ("header", s("Q2")),
                ("options", arr(vec![obj(vec![("label", s("A"))]), obj(vec![("label", s("B"))])])),
            ]),
        ]),
    )]);

    let result = extract_questions_with_options(&tool_input);
    assert!(result.contains("*Q1: [Q1]* First question?"));
    assert!(result.contains("*Q2: [Q2]* Second question?"));
}

#[test]
fn extract_questions_test_test_extract_questions_with_options_no_header() {
    let tool_input = obj(vec![(
        "questions",
        arr(vec![obj(vec![
            ("question", s("Simple question?")),
            ("options", arr(vec![obj(vec![("label", s("Yes"))]), obj(vec![("label", s("No"))])])),
        ])]),
    )]);

    let result = extract_questions_with_options(&tool_input);
    assert!(result.contains("*Q1:* Simple question?"));
}

#[test]
fn extract_questions_test_test_extract_questions_with_options_no_questions() {
    let tool_input = obj(vec![]);
    let result = extract_questions_with_options(&tool_input);
    assert_eq!(result, "N/A");
}

#[test]
fn extract_questions_test_test_extract_questions_with_options_empty_questions() {
    let tool_input = obj(vec![("questions", arr(vec![]))]);
    let result = extract_questions_with_options(&tool_input);
    assert_eq!(result, "");
}

#[test]
fn extract_questions_test_test_extract_questions_option_without_description() {
    let tool_input = obj(vec![(
        "questions",
        arr(vec![obj(vec![
            ("question", s("Pick one?")),
            ("header", s("Choice")),
            ("options", arr(vec![obj(vec![("label", s("Alpha"))]), obj(vec![("label", s("Beta"))])])),
        ])]),
    )]);

    let result = extract_questions_with_options(&tool_input);
    assert!(result.contains("1. Alpha"));
    assert!(result.contains("2. Beta"));
    assert!(!result.contains(" - ")); // No description separator
}

#[test]
fn questions_text_is_exact() {
    let tool_input = obj(vec![(
        "questions",
        arr(vec![
            obj(vec![
                ("question", s("Pick?")),
                ("header", s("")),
                ("options", arr(vec![obj(vec![("description", s("no label"))]), obj(vec![("label", s("B")), ("description", s("bee"))])])),
            ]),
            obj(vec![("header", s("H"))]),
        ]),
    )]);
    let result = extract_questions_with_options(&tool_input);
    assert_eq!(result, "*Q1:* Pick?\n  2. B - bee\n\n*Q2: [H]* N/A");
}

#[test]
fn questions_not_an_array_reads_as_missing() {
    let tool_input = obj(vec![("questions", s("what?"))]);
    assert_eq!(extract_questions_with_options(&tool_input), "N/A");
}

#[test]
fn many_options_are_numbered_in_decimal() {
    let options: Vec<JsonValue> = (0..12).map(|i| obj(vec![("label", s(&format!("L{}", i)))])).collect();
    let tool_input = obj(vec![("questions", arr(vec![obj(vec![("question", s("Q")), ("options", arr(options))])]))]);
    let result = extract_questions_with_options(&tool_input);
    assert!(result.contains("  10. L9\n  11. L10\n  12. L11"));
    assert_eq!(claude_hooks::decimal_string(0), "0");
    assert_eq!(claude_hooks::decimal_string(4096), "4096");
}
