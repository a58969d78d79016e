use lune::regex::LuaRegex;

#[test]
fn regex_new_and_display() {
    let re = LuaRegex::new("a+b".to_string()).unwrap();
    assert_eq!(re.to_display(), "Regex(a+b)");
    assert!(LuaRegex::new("(".to_string()).is_err());
}

#[test]
fn regex_is_match_and_find() {
    let re = LuaRegex::new("[0-9]+".to_string()).unwrap();
    assert!(re.is_match("abc 123"));
    assert!(!re.is_match("abc"));
    let m = re.find("abc 123 def").unwrap();
    // start is 1-based, finish is the exclusive byte end
    assert_eq!(m.start(), 5);
    assert_eq!(m.finish(), 7);
    assert_eq!(m.len(), 3);
    assert!(!m.is_empty());
    assert_eq!(m.text(), "123");
    assert_eq!(m.to_display(), "RegexMatch(123)");
    assert!(re.find("no digits").is_none());
}

#[test]
fn regex_empty_match() {
    let re = LuaRegex::new("x*".to_string()).unwrap();
    let m = re.find("abc").unwrap();
    assert_eq!(m.start(), 1);
    assert_eq!(m.finish(), 0);
    assert_eq!(m.len(), 0);
    assert!(m.is_empty());
    assert_eq!(m.text(), "");
}

#[test]
fn regex_captures_by_index_and_name() {
    let re = LuaRegex::new(r"(?P<key>\w+)=(?P<value>\w+)(!)?".to_string()).unwrap();
    let c = re.captures("set alpha=beta now").unwrap();
    assert_eq!(c.len(), 3);
    assert_eq!(c.to_display(), "RegexCaptures(3)");
    assert_eq!(c.get(0).unwrap().text(), "alpha=beta");
    assert_eq!(c.get(1).unwrap().text(), "alpha");
    assert_eq!(c.get(2).unwrap().text(), "beta");
    assert!(c.get(3).is_none());
    assert!(c.get(4).is_none());
    let k = c.group("key").unwrap();
    assert_eq!(k.text(), "alpha");
    assert_eq!(k.start(), 5);
    assert_eq!(c.group("value").unwrap().text(), "beta");
    assert!(c.group("missing").is_none());
    assert_eq!(c.format("$value:$key"), "beta:alpha");
    assert!(re.captures("nothing here").is_none());
}

#[test]
fn regex_split_and_replace() {
    let re = LuaRegex::new(",\\s*".to_string()).unwrap();
    assert_eq!(re.split("a, b,c"), vec!["a".to_string(), "b".to_string(), "c".to_string()]);
    let re = LuaRegex::new("o".to_string()).unwrap();
    assert_eq!(re.replace("foo boo", "0"), "f0o boo");
    assert_eq!(re.replace_all("foo boo", "0"), "f00 b00");
    let re = LuaRegex::new("(\\w+)@(\\w+)".to_string()).unwrap();
    assert_eq!(re.replace_all("me@here you@there", "$2:$1"), "here:me there:you");
}
