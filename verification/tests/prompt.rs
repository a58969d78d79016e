use lune::prompt::{
    multi_select_result, select_result, PromptDefault, PromptKind, PromptKindError,
    PromptKindInput, PromptOptions, PromptOptionsError, PromptResult,
};

#[test]
fn prompt_kind_names_and_default() {
    assert_eq!(PromptKind::default(), PromptKind::Text);
    assert_eq!(
        PromptKind::get_all(),
        vec![PromptKind::Text, PromptKind::Confirm, PromptKind::Select, PromptKind::MultiSelect]
    );
    for k in PromptKind::get_all() {
        assert_eq!(PromptKind::from_name(&k.name()), Ok(k));
    }
    assert_eq!(PromptKind::MultiSelect.name(), "MultiSelect");
}

#[test]
fn prompt_kind_from_name_is_permissive() {
    assert_eq!(PromptKind::from_name("multi select"), Ok(PromptKind::MultiSelect));
    assert_eq!(PromptKind::from_name("Multi_Select"), Ok(PromptKind::MultiSelect));
    assert_eq!(PromptKind::from_name("CONFIRM"), Ok(PromptKind::Confirm));
    assert_eq!(PromptKind::from_name("text"), Ok(PromptKind::Text));
    assert_eq!(
        PromptKind::from_name("Check Box"),
        Err("Invalid prompt kind 'checkbox', valid kinds are:\nText, Confirm, Select, MultiSelect"
            .to_string())
    );
}

#[test]
fn prompt_kind_from_lua_values() {
    assert!(matches!(PromptKind::from_lua(&PromptKindInput::Nil), Ok(PromptKind::Text)));
    assert!(matches!(
        PromptKind::from_lua(&PromptKindInput::String(b"select".to_vec())),
        Ok(PromptKind::Select)
    ));
    assert!(matches!(
        PromptKind::from_lua(&PromptKindInput::String(vec![0xff, 0xfe])),
        Err(PromptKindError::NotUtf8)
    ));
    assert!(matches!(
        PromptKind::from_lua(&PromptKindInput::Other),
        Err(PromptKindError::NotAString)
    ));
    match PromptKind::from_lua(&PromptKindInput::String(b"nope".to_vec())) {
        Err(PromptKindError::Invalid(m)) => assert!(m.starts_with("Invalid prompt kind 'nope'")),
        other => panic!("unexpected {:?}", other),
    }
}

#[test]
fn prompt_options_text_and_confirm() {
    let o = PromptOptions::from_lua_multi(PromptKind::Text, None, PromptDefault::Nil).unwrap();
    assert_eq!(o.kind, PromptKind::Text);
    assert_eq!(o.text, None);
    assert_eq!(o.default_bool, None);

    let o = PromptOptions::from_lua_multi(
        PromptKind::Confirm,
        Some(Some("Continue?".to_string())),
        PromptDefault::Boolean(true),
    )
    .unwrap();
    assert_eq!(o.text.as_deref(), Some("Continue?"));
    assert_eq!(o.default_bool, Some(true));
    assert_eq!(o.default_string, None);

    match PromptOptions::from_lua_multi(PromptKind::Confirm, None, PromptDefault::Nil) {
        Err(PromptOptionsError::Invalid { from, message }) => {
            assert_eq!(from, "nil");
            assert_eq!(message, "Argument #2 missing or nil");
        }
        other => panic!("unexpected {:?}", other),
    }
}

#[test]
fn prompt_options_select_needs_options() {
    match PromptOptions::from_lua_multi(
        PromptKind::Select,
        Some(Some("Pick".to_string())),
        PromptDefault::Nil,
    ) {
        Err(PromptOptionsError::Invalid { from, message }) => {
            assert_eq!(from, "nil");
            assert_eq!(message, "Argument #3 missing or nil");
        }
        other => panic!("unexpected {:?}", other),
    }
    let o = PromptOptions::from_lua_multi(
        PromptKind::MultiSelect,
        None,
        PromptDefault::Table(Some(vec!["a".to_string(), "b".to_string()])),
    )
    .unwrap();
    assert_eq!(o.options, Some(vec!["a".to_string(), "b".to_string()]));
}

#[test]
fn prompt_options_conversion_errors() {
    assert!(matches!(
        PromptOptions::from_lua_multi(PromptKind::Text, Some(None), PromptDefault::Nil),
        Err(PromptOptionsError::Conversion)
    ));
    assert!(matches!(
        PromptOptions::from_lua_multi(PromptKind::Text, None, PromptDefault::String(None)),
        Err(PromptOptionsError::Conversion)
    ));
    match PromptOptions::from_lua_multi(
        PromptKind::Text,
        None,
        PromptDefault::Other("number".to_string()),
    ) {
        Err(PromptOptionsError::Invalid { from, message }) => {
            assert_eq!(from, "number");
            assert_eq!(message, "Argument #3 must be a boolean, table, or nil");
        }
        other => panic!("unexpected {:?}", other),
    }
    let o = PromptOptions::from_lua_multi(
        PromptKind::Text,
        None,
        PromptDefault::String(Some("dflt".to_string())),
    )
    .unwrap();
    assert_eq!(o.default_string.as_deref(), Some("dflt"));
}

#[test]
fn prompt_results_count_from_one() {
    assert_eq!(select_result(Some(0)), PromptResult::Index(1));
    assert_eq!(select_result(None), PromptResult::Nothing);
    assert_eq!(multi_select_result(Some(vec![0, 2])), PromptResult::Indices(vec![1, 3]));
    assert_eq!(multi_select_result(Some(vec![])), PromptResult::Indices(vec![]));
    assert_eq!(multi_select_result(None), PromptResult::Nothing);
}
