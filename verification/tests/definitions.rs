use lune::definitions::builder::DefinitionsItemBuilder;
use lune::definitions::item::{
    DefinitionsItem, DefinitionsItemFunctionArg, DefinitionsItemFunctionRet, DefinitionsItemKind,
};
use lune::definitions::moonwave::{
    comment_is_readable, parse_moonwave_style_comment, parse_moonwave_style_tag,
    should_separate_tag_meta, try_parse_moonwave_style_comment,
};
use lune::definitions::tag::DefinitionsItemTag;
use lune::definitions::tree::DefinitionsTree;

fn chars(s: &str) -> Vec<char> {
    s.chars().collect()
}

fn named(kind: DefinitionsItemKind, name: Option<&str>) -> DefinitionsItem {
    let mut b = DefinitionsItemBuilder::new().with_kind(kind);
    if let Some(n) = name {
        b = b.with_name(n);
    }
    b.build().unwrap()
}

#[test]
fn definitions_tag_meta_only_for_param() {
    assert!(should_separate_tag_meta(&chars("param")));
    assert!(should_separate_tag_meta(&chars(" PARAM ")));
    assert!(!should_separate_tag_meta(&chars("return")));
}

#[test]
fn definitions_parse_tag_lines() {
    let t = parse_moonwave_style_tag(&chars("@param name The  name")).unwrap();
    assert_eq!(t.kind, DefinitionsItemKind::Tag);
    assert_eq!(t.get_name(), Some("param"));
    assert_eq!(t.get_meta(), Some("name"));
    assert_eq!(t.get_value(), Some("The name"));

    let t = parse_moonwave_style_tag(&chars("@return string value")).unwrap();
    assert_eq!(t.get_name(), Some("return"));
    assert_eq!(t.get_meta(), None);
    assert_eq!(t.get_value(), Some("string value"));

    let t = parse_moonwave_style_tag(&chars("@must_use")).unwrap();
    assert_eq!(t.get_name(), Some("must_use"));
    assert_eq!(t.get_value(), None);

    assert!(parse_moonwave_style_tag(&chars("plain text")).is_none());
    assert!(parse_moonwave_style_tag(&chars("@")).is_none());
    assert!(parse_moonwave_style_tag(&chars("@ x")).is_none());
    assert!(parse_moonwave_style_tag(&chars("")).is_none());
}

#[test]
fn definitions_parse_comment() {
    let items = parse_moonwave_style_comment("\n\tHello\n\t@param x The x\n\tWorld\n");
    assert_eq!(items.len(), 2);
    assert_eq!(items[0].kind, DefinitionsItemKind::Tag);
    assert_eq!(items[0].get_name(), Some("param"));
    assert_eq!(items[0].get_meta(), Some("x"));
    assert_eq!(items[0].get_value(), Some("The x"));
    assert_eq!(items[1].kind, DefinitionsItemKind::Description);
    assert_eq!(items[1].get_value(), Some("\nHello\nWorld\n"));

    let items = parse_moonwave_style_comment("@class Foo");
    assert_eq!(items.len(), 1);
    assert_eq!(items[0].get_name(), Some("class"));
    assert_eq!(items[0].get_value(), Some("Foo"));
}

#[test]
fn definitions_tags_from_items() {
    let items = parse_moonwave_style_comment("@class Foo\n@param a first\n@read_only\n@within Bar");
    let tags: Vec<DefinitionsItemTag> =
        items.iter().take(4).map(|i| DefinitionsItemTag::try_from(i).unwrap()).collect();
    assert!(tags[0].is_class());
    assert!(matches!(&tags[0], DefinitionsItemTag::Class(n) if n == "Foo"));
    assert!(tags[1].is_param());
    assert!(matches!(&tags[1], DefinitionsItemTag::Param((n, d)) if n == "a" && d == "first"));
    assert!(tags[2].is_read_only());
    assert!(!tags[2].is_read_write());
    assert!(tags[3].is_within());

    let bad = DefinitionsItemBuilder::new()
        .with_kind(DefinitionsItemKind::Tag)
        .with_name(" Unknown ")
        .build()
        .unwrap();
    assert_eq!(
        DefinitionsItemTag::try_from(&bad).unwrap_err(),
        "Unknown docs tag: 'unknown'"
    );
    let no_value = named(DefinitionsItemKind::Tag, Some("class"));
    assert_eq!(
        DefinitionsItemTag::try_from(&no_value).unwrap_err(),
        "Missing class name for class tag"
    );
    let nameless = named(DefinitionsItemKind::Tag, None);
    assert_eq!(DefinitionsItemTag::try_from(&nameless).unwrap_err(), "Doc item has no name");
}

#[test]
fn definitions_builder_sorts_children() {
    let item = DefinitionsItemBuilder::new()
        .with_kind(DefinitionsItemKind::Table)
        .with_name("t")
        .as_exported()
        .with_type("T".to_string())
        .with_child(named(DefinitionsItemKind::Property, Some("b")))
        .with_children(&[
            named(DefinitionsItemKind::Property, None),
            named(DefinitionsItemKind::Property, Some("a")),
        ])
        .with_arg(DefinitionsItemFunctionArg {
            name: "x".to_string(),
            typedef: "number".to_string(),
            typedef_simple: "number".to_string(),
        })
        .with_rets(&[DefinitionsItemFunctionRet {
            typedef: "string".to_string(),
            typedef_simple: "string".to_string(),
        }])
        .build()
        .unwrap();
    assert!(item.exported);
    assert_eq!(item.typ.as_deref(), Some("T"));
    let names: Vec<Option<&str>> = item.children.iter().map(|c| c.get_name()).collect();
    assert_eq!(names, vec![None, Some("a"), Some("b")]);
    assert_eq!(item.args.len(), 1);
    assert_eq!(item.rets[0].typedef, "string");

    let copy = DefinitionsItemBuilder::from_item(&item).build().unwrap();
    assert_eq!(copy.get_name(), Some("t"));
    assert_eq!(copy.children.len(), 3);

    assert_eq!(
        DefinitionsItemBuilder::new().with_name("x").build().unwrap_err(),
        "Missing doc item kind"
    );
}

#[test]
fn definitions_tree_root() {
    let items = vec![
        named(DefinitionsItemKind::Function, Some("zeta")),
        named(DefinitionsItemKind::Table, Some("alpha")),
    ];
    let tree = DefinitionsTree::from_type_definitions(Ok(items)).unwrap();
    assert!(tree.is_root());
    let root = tree.into_inner();
    assert_eq!(root.kind, DefinitionsItemKind::Root);
    assert_eq!(root.get_name(), Some("<<<ROOT>>>"));
    let names: Vec<Option<&str>> = root.children.iter().map(|c| c.get_name()).collect();
    assert_eq!(names, vec![Some("alpha"), Some("zeta")]);

    let e = DefinitionsTree::from_type_definitions(Err("unexpected token".to_string())).unwrap_err();
    assert_eq!(e, "Failed to parse type definitions AST: unexpected token");
}

#[test]
fn definitions_comments_that_cannot_be_read() {
    assert!(comment_is_readable("\n\tHello\n\t@param x The x\n"));
    let items = try_parse_moonwave_style_comment("@class Foo").unwrap();
    assert_eq!(items.len(), 1);
    // the indentation is one character, but the first character of the line
    // is a two-byte space, so it does not end on a character boundary
    assert!(!comment_is_readable("\u{a0}b"));
    assert!(try_parse_moonwave_style_comment("\u{a0}b").is_none());
    assert!(comment_is_readable(" a\n\u{a0}\u{a0}b") == false);
    assert!(comment_is_readable("\u{a0}b\n\u{a0}c") == false);
}

#[test]
fn definitions_rebuilding_a_sorted_item_gives_it_back() {
    let item = DefinitionsItemBuilder::new()
        .with_kind(DefinitionsItemKind::Table)
        .with_name("t")
        .with_children(&[
            named(DefinitionsItemKind::Property, Some("a")),
            named(DefinitionsItemKind::Property, Some("b")),
        ])
        .build()
        .unwrap();
    let again = DefinitionsItemBuilder::from_item(&item).build().unwrap();
    assert_eq!(again.get_name(), Some("t"));
    assert_eq!(again.kind, DefinitionsItemKind::Table);
    let names: Vec<Option<&str>> = again.children.iter().map(|c| c.get_name()).collect();
    assert_eq!(names, vec![Some("a"), Some("b")]);
}

#[test]
fn definitions_children_one_by_one_or_all_at_once() {
    let cs = [
        named(DefinitionsItemKind::Property, Some("z")),
        named(DefinitionsItemKind::Property, Some("y")),
    ];
    let all = DefinitionsItemBuilder::new().with_kind(DefinitionsItemKind::Table).with_children(&cs);
    let mut one = DefinitionsItemBuilder::new().with_kind(DefinitionsItemKind::Table);
    for c in cs.iter() {
        one = one.with_child(named(c.kind, c.get_name()));
    }
    let a: Vec<Option<String>> = all.build().unwrap().children.iter().map(|c| c.name.clone()).collect();
    let b: Vec<Option<String>> = one.build().unwrap().children.iter().map(|c| c.name.clone()).collect();
    assert_eq!(a, b);
    assert_eq!(a, vec![Some("y".to_string()), Some("z".to_string())]);
}

#[test]
fn definitions_tag_kind_tests() {
    let tags = [
        DefinitionsItemTag::Class("C".to_string()),
        DefinitionsItemTag::Type("T".to_string()),
        DefinitionsItemTag::Within("W".to_string()),
        DefinitionsItemTag::Param(("p".to_string(), "d".to_string())),
        DefinitionsItemTag::Return("r".to_string()),
        DefinitionsItemTag::MustUse,
        DefinitionsItemTag::ReadOnly,
        DefinitionsItemTag::ReadWrite,
    ];
    for t in tags.iter() {
        let n = [
            t.is_class(),
            t.is_within(),
            t.is_param(),
            t.is_return(),
            t.is_must_use(),
            t.is_read_only(),
            t.is_read_write(),
        ]
        .iter()
        .filter(|b| **b)
        .count();
        let is_type_tag = matches!(t, DefinitionsItemTag::Type(_));
        assert_eq!(n, if is_type_tag { 0 } else { 1 });
        assert_eq!(t.is_type(), t.is_class());
    }
    assert!(!DefinitionsItemTag::Type("T".to_string()).is_type());
}
