use lune::formatting::{
    can_be_plain_lua_table_key, can_format_error, can_pretty_format, color_code, format_label, pretty_format_luau_error,
    pretty_format_multi_value, pretty_format_value, style_code, Console, FormatValue, LuauError,
    TableEntry,
};

const RESET: &str = "\x1B[0m";
const DIM: &str = "\x1B[2m";
const STYLE_RESET: &str = "\x1B[22m";
const BLUE: &str = "\x1B[34m";

fn fmt(v: &FormatValue, depth: usize) -> String {
    let mut s = String::new();
    pretty_format_value(&mut s, v, depth);
    s
}

#[test]
fn format_label_colors() {
    assert_eq!(format_label("info"), "\x1B[1m[\x1B[34mINFO\x1B[0m\x1B[1m]\x1B[22m ");
    assert_eq!(format_label("Warn"), "\x1B[1m[\x1B[33mWARN\x1B[0m\x1B[1m]\x1B[22m ");
    assert_eq!(format_label("ERROR"), "\x1B[1m[\x1B[31mERROR\x1B[0m\x1B[1m]\x1B[22m ");
    assert_eq!(format_label("other"), "\x1B[1m[\x1B[37mOTHER\x1B[0m\x1B[1m]\x1B[22m ");
}

#[test]
fn style_and_color_codes() {
    assert_eq!(style_code("bold"), Ok("\x1B[1m".to_string()));
    assert_eq!(style_code("reset"), Ok("\x1B[22m".to_string()));
    assert_eq!(
        style_code("italic"),
        Err("The style 'italic' is not a valid style name".to_string())
    );
    assert_eq!(color_code("purple"), Ok("\x1B[35m".to_string()));
    assert_eq!(color_code("reset"), Ok("\x1B[0m".to_string()));
    assert_eq!(color_code("pink"), Err("The color 'pink' is not a valid color name".to_string()));
}

#[test]
fn console_set_color_normalizes_names() {
    let c = Console::new();
    assert_eq!(c.set_color("  RED "), Ok("\x1B[31m".to_string()));
    assert_eq!(c.set_style("Dim"), Ok("\x1B[2m".to_string()));
    assert_eq!(c.set_color(" Pink"), Err("The color 'pink' is not a valid color name".to_string()));
    assert_eq!(c.reset_color(), RESET);
    assert_eq!(c.reset_style(), STYLE_RESET);
}

#[test]
fn plain_table_keys() {
    assert!(can_be_plain_lua_table_key("foo_bar1"));
    assert!(!can_be_plain_lua_table_key("1abc"));
    assert!(!can_be_plain_lua_table_key("a-b"));
    assert!(can_be_plain_lua_table_key("é"));
}

#[test]
fn pretty_format_scalars() {
    assert_eq!(fmt(&FormatValue::Nil, 0), "nil");
    assert_eq!(fmt(&FormatValue::Boolean(true), 0), "\x1B[33mtrue\x1B[0m");
    assert_eq!(fmt(&FormatValue::Integer(-42), 0), "\x1B[36m-42\x1B[0m");
    assert_eq!(fmt(&FormatValue::Integer(i64::MIN), 0), "\x1B[36m-9223372036854775808\x1B[0m");
    assert_eq!(fmt(&FormatValue::Number("1.5".to_string()), 0), "\x1B[36m1.5\x1B[0m");
    assert_eq!(
        fmt(&FormatValue::String("a\"b\nc".to_string()), 0),
        "\x1B[32m\"a\\\"b\\nc\"\x1B[0m"
    );
    assert_eq!(fmt(&FormatValue::Function, 0), "\x1B[35m<function>\x1B[0m");
    assert_eq!(
        fmt(
            &FormatValue::Vector("1".to_string(), "2".to_string(), "3".to_string()),
            0
        ),
        "\x1B[35m<vector(1, 2, 3)>\x1B[0m"
    );
    assert_eq!(fmt(&FormatValue::Other, 0), "?");
}

#[test]
fn pretty_format_tables() {
    let table = FormatValue::Table(vec![
        TableEntry { key: FormatValue::String("name".to_string()), value: FormatValue::Integer(1) },
        TableEntry { key: FormatValue::Integer(2), value: FormatValue::Boolean(false) },
    ]);
    let expected = format!(
        "{DIM}{{{STYLE_RESET}\n    name {DIM}={STYLE_RESET} \x1B[36m1{RESET}{DIM},{STYLE_RESET}\n    [\x1B[36m2{RESET}] {DIM}={STYLE_RESET} \x1B[33mfalse{RESET}{DIM},{STYLE_RESET}\n{DIM}}}{STYLE_RESET}"
    );
    assert_eq!(fmt(&table, 0), expected);
    assert_eq!(fmt(&table, 4), format!("{DIM}{{ ... }}{STYLE_RESET}"));
    let empty = FormatValue::Table(vec![]);
    assert_eq!(fmt(&empty, 1), format!("{DIM}{{{STYLE_RESET}\n    {DIM}}}{STYLE_RESET}"));
}

#[test]
fn pretty_format_nested_tables_are_indented() {
    let inner = FormatValue::Table(vec![TableEntry {
        key: FormatValue::String("x".to_string()),
        value: FormatValue::Nil,
    }]);
    let outer = FormatValue::Table(vec![TableEntry {
        key: FormatValue::String("inner".to_string()),
        value: inner,
    }]);
    let expected = format!(
        "{DIM}{{{STYLE_RESET}\n    inner {DIM}={STYLE_RESET} {DIM}{{{STYLE_RESET}\n        x {DIM}={STYLE_RESET} nil{DIM},{STYLE_RESET}\n    {DIM}}}{STYLE_RESET}{DIM},{STYLE_RESET}\n{DIM}}}{STYLE_RESET}"
    );
    assert_eq!(fmt(&outer, 0), expected);
}

#[test]
fn pretty_format_multi_values() {
    let values = vec![
        FormatValue::String("hello".to_string()),
        FormatValue::Integer(5),
        FormatValue::Nil,
    ];
    assert_eq!(pretty_format_multi_value(&values), "hello \x1B[36m5\x1B[0m nil");
    assert_eq!(pretty_format_multi_value(&[]), "");
    let c = Console::new();
    assert_eq!(c.format(&values), "hello \x1B[36m5\x1B[0m nil");
    assert_eq!(
        c.labelled("info", &[FormatValue::String("hi".to_string())]),
        format!("{}hi", format_label("info"))
    );
}

#[test]
fn luau_runtime_error_marks_traceback() {
    let e = LuauError::Runtime("oops\nstack traceback:\n  line 1".to_string());
    let expected = format!("oops\n[{BLUE}Stack Begin{RESET}]\n  line 1\n[{BLUE}Stack End{RESET}]");
    assert_eq!(pretty_format_luau_error(&e), expected);
    let plain = LuauError::Runtime("just a message".to_string());
    assert_eq!(pretty_format_luau_error(&plain), "just a message");
}

#[test]
fn luau_error_strips_script_path() {
    let e = LuauError::Runtime("[string \"main\"]:3: bad thing".to_string());
    assert_eq!(pretty_format_luau_error(&e), "bad thing");
    let e = LuauError::Other("[string \"main\"]:3".to_string());
    assert_eq!(pretty_format_luau_error(&e), "3");
    let e = LuauError::Other("no path here".to_string());
    assert_eq!(pretty_format_luau_error(&e), "no path here");
    let e = LuauError::Other("[string \"main\"]:3 no colon".to_string());
    assert_eq!(pretty_format_luau_error(&e), "3 no colon");
}

#[test]
fn luau_conversion_errors() {
    let e = LuauError::FromLuaConversion {
        from: "nil".to_string(),
        to: "String".to_string(),
        message: Some("expected string".to_string()),
    };
    assert_eq!(
        pretty_format_luau_error(&e),
        "Failed to convert Luau type 'nil' into Rust type 'String'!\nDetails:\n\texpected string"
    );
    let e = LuauError::ToLuaConversion { from: "u8".to_string(), to: "x".to_string(), message: None };
    assert_eq!(
        pretty_format_luau_error(&e),
        "Failed to convert Rust type 'u8' into Luau type 'x'!"
    );
}

#[test]
fn luau_callback_error_keeps_longest_traceback() {
    let e = LuauError::Callback {
        traceback: "stack traceback:\nshort".to_string(),
        cause: Box::new(LuauError::Callback {
            traceback: "stack traceback:\nmuch longer one".to_string(),
            cause: Box::new(LuauError::Runtime("root cause".to_string())),
        }),
    };
    let expected = format!(
        "root cause\n[{BLUE}Stack Begin{RESET}]\nmuch longer one\n[{BLUE}Stack End{RESET}]"
    );
    assert_eq!(pretty_format_luau_error(&e), expected);
}

#[test]
fn printable_values_and_errors() {
    let ok = FormatValue::Table(vec![TableEntry {
        key: FormatValue::String("a".to_string()),
        value: FormatValue::Integer(1),
    }]);
    assert!(can_pretty_format(&ok, 0));
    let empty_key = FormatValue::Table(vec![TableEntry {
        key: FormatValue::String(String::new()),
        value: FormatValue::Nil,
    }]);
    assert!(!can_pretty_format(&empty_key, 0));
    // past the depth that the printer shows, the table's keys are not read
    assert!(can_pretty_format(&empty_key, 4));
    assert!(can_pretty_format(&FormatValue::Nil, 0));

    let good = LuauError::Callback {
        traceback: "stack traceback:\nx".to_string(),
        cause: Box::new(LuauError::Runtime("e".to_string())),
    };
    assert!(can_format_error(&good));
    let bad = LuauError::Callback {
        traceback: "no heading".to_string(),
        cause: Box::new(LuauError::Runtime("e".to_string())),
    };
    assert!(!can_format_error(&bad));
    assert!(can_format_error(&LuauError::Other("x".to_string())));
}
