//! Documentation comments in the Moonwave style: free text, and tag lines
//! of the form `@kind rest`.

use vstd::prelude::*;

use super::builder::DefinitionsItemBuilder;
use super::item::{items_view, opt_view, sort_by_name, DefinitionsItem, DefinitionsItemKind, ItemView};
use crate::text::{
    ascii_lower, byte_boundary_index, chars_eq_str, chars_to_string, find_char, find_char_exec,
    is_whitespace, is_ws, join, join_chars, lemma_byte_boundary_sound, lemma_find_char,
    lemma_utf8_len_push, lemma_utf8_len_strict, char_width_exec, str_chars, sub_chars,
    to_ascii_lower, trim, trim_chars, trim_start, utf8_len, views,
};

verus! {

// ---------------------------------------------------------------------
// Specification

/// The text with each tab replaced by four spaces.
pub open spec fn replace_tabs(s: Seq<char>) -> Seq<char>
    decreases s.len(),
{
    if s.len() == 0 {
        s
    } else if s.last() == '\t' {
        replace_tabs(s.drop_last()) + seq![' ', ' ', ' ', ' ']
    } else {
        replace_tabs(s.drop_last()).push(s.last())
    }
}

/// The pieces of a text between occurrences of `c`, as `str::split`.
pub open spec fn split_on(s: Seq<char>, c: char) -> Seq<Seq<char>>
    decreases s.len(),
{
    match find_char(s, c) {
        Some(i) => if 0 <= i < s.len() {
            seq![s.take(i)] + split_on(s.skip(i + 1), c)
        } else {
            seq![]
        },
        None => seq![s],
    }
}

/// The index of the first character of a line that is not whitespace.
pub open spec fn first_non_ws(l: Seq<char>) -> Option<int>
    decreases l.len(),
{
    if l.len() == 0 {
        None
    } else if !is_ws(l[0]) {
        Some(0)
    } else {
        match first_non_ws(l.drop_first()) {
            Some(i) => Some(i + 1),
            None => None,
        }
    }
}

/// The smallest index of a first non-whitespace character among lines,
/// starting from `usize::MAX`.
pub open spec fn indent_len(ls: Seq<Seq<char>>) -> int
    decreases ls.len(),
{
    if ls.len() == 0 {
        usize::MAX as int
    } else {
        let m = indent_len(ls.drop_last());
        match first_non_ws(ls.last()) {
            Some(i) => if i < m {
                i
            } else {
                m
            },
            None => m,
        }
    }
}

/// A line with its first `k` bytes removed, when it is not blank.
pub open spec fn unindent_line(l: Seq<char>, k: int) -> Seq<char> {
    if first_non_ws(l) is Some {
        l.skip(byte_boundary_index(l, k).unwrap())
    } else {
        l
    }
}

/// The lines of a comment, tabs expanded and the common indentation
/// removed.
pub open spec fn comment_body_lines(comment: Seq<char>) -> Seq<Seq<char>> {
    let ls = split_on(replace_tabs(comment), '\n');
    ls.map_values(|l: Seq<char>| unindent_line(l, indent_len(ls)))
}

/// The comments that can be read without panicking: the common
/// indentation, a number of characters, ends on a character boundary of
/// every line that is not blank.
pub open spec fn comment_readable(comment: Seq<char>) -> bool {
    let ls = split_on(replace_tabs(comment), '\n');
    forall|i: int|
        0 <= i < ls.len() && #[trigger] first_non_ws(ls[i]) is Some ==> byte_boundary_index(
            ls[i],
            indent_len(ls),
        ) is Some
}

/// The length of the run of characters at the start of `s` that are not
/// whitespace.
pub open spec fn non_ws_run(s: Seq<char>) -> int
    decreases s.len(),
{
    if s.len() > 0 && !is_ws(s[0]) {
        1 + non_ws_run(s.drop_first())
    } else {
        0
    }
}

/// The words of a text, as `str::split_whitespace`.
pub open spec fn words(s: Seq<char>) -> Seq<Seq<char>>
    decreases s.len(),
{
    if s.len() == 0 {
        seq![]
    } else if is_ws(s[0]) {
        words(s.drop_first())
    } else {
        let k = non_ws_run(s);
        if 0 < k <= s.len() {
            seq![s.take(k)] + words(s.skip(k))
        } else {
            seq![]
        }
    }
}

/// What the tag pattern `^@(\S+)\s*(.*)$` captures in a line without
/// newlines: the tag kind after `@`, and the rest after the whitespace
/// that follows it.
pub open spec fn tag_captures(l: Seq<char>) -> Option<(Seq<char>, Seq<char>)> {
    if l.len() >= 1 && l[0] == '@' {
        let rest = l.skip(1);
        let k = non_ws_run(rest);
        if k == 0 {
            None
        } else {
            Some((rest.take(k), trim_start(rest.skip(k))))
        }
    } else {
        None
    }
}

/// Whether a tag kind's words start with a name: only for `param` tags.
pub open spec fn separates_meta(kind: Seq<char>) -> bool {
    ascii_lower(trim(kind)) == "param"@
}

/// Whether a tag kind's words start with a name: only for `param` tags,
/// in any ASCII case and with any surrounding whitespace.
pub fn should_separate_tag_meta(tag_kind: &[char]) -> (r: bool)
    ensures
        r == separates_meta(tag_kind@),
{
    let lowered = to_ascii_lower(trim_chars(tag_kind).as_slice());
    chars_eq_str(lowered.as_slice(), "param")
}

/// The item that a tag line describes.
pub open spec fn tag_item(kind: Seq<char>, rest: Seq<char>) -> ItemView {
    let ws = words(rest);
    let has_name = ws.len() > 0 && separates_meta(kind);
    let name = if has_name {
        ws[0]
    } else {
        seq![]
    };
    let contents = join(
        if has_name {
            ws.drop_first()
        } else {
            ws
        },
        " "@,
    );
    ItemView {
        exported: false,
        kind: DefinitionsItemKind::Tag,
        typ: None,
        name: Some(kind),
        meta: if name.len() > 0 {
            Some(name)
        } else {
            None
        },
        value: if contents.len() > 0 {
            Some(contents)
        } else {
            None
        },
        children: seq![],
        args: seq![],
        rets: seq![],
    }
}

/// The tag item of a line, if it is a tag line.
pub open spec fn spec_parse_tag(l: Seq<char>) -> Option<ItemView> {
    match tag_captures(l) {
        Some((kind, rest)) => Some(tag_item(kind, rest)),
        None => None,
    }
}

/// The tag items of lines, in order.
pub open spec fn tag_items(ls: Seq<Seq<char>>) -> Seq<ItemView>
    decreases ls.len(),
{
    if ls.len() == 0 {
        seq![]
    } else {
        match spec_parse_tag(ls.last()) {
            Some(t) => tag_items(ls.drop_last()).push(t),
            None => tag_items(ls.drop_last()),
        }
    }
}

/// The lines that are not tag lines, in order.
pub open spec fn doc_lines(ls: Seq<Seq<char>>) -> Seq<Seq<char>>
    decreases ls.len(),
{
    if ls.len() == 0 {
        seq![]
    } else {
        match spec_parse_tag(ls.last()) {
            Some(_) => doc_lines(ls.drop_last()),
            None => doc_lines(ls.drop_last()).push(ls.last()),
        }
    }
}

/// The description item over text lines.
pub open spec fn description_item(text: Seq<char>) -> ItemView {
    ItemView {
        exported: false,
        kind: DefinitionsItemKind::Description,
        typ: None,
        name: None,
        meta: None,
        value: Some(text),
        children: seq![],
        args: seq![],
        rets: seq![],
    }
}

/// The items of a Moonwave comment: one tag item per tag line, in order,
/// then one description item with the other lines joined by newlines, if
/// there are any.
pub open spec fn spec_parse_comment(comment: Seq<char>) -> Seq<ItemView> {
    let ls = comment_body_lines(comment);
    let d = doc_lines(ls);
    tag_items(ls) + if d.len() > 0 {
        seq![description_item(join(d, "\n"@))]
    } else {
        seq![]
    }
}

// ---------------------------------------------------------------------
// Implementation

fn replace_tabs_exec(s: &[char]) -> (r: Vec<char>)
    ensures
        r@ == replace_tabs(s@),
{
    let mut r: Vec<char> = Vec::new();
    let mut i: usize = 0;
    while i < s.len()
        invariant
            i <= s@.len(),
            r@ == replace_tabs(s@.take(i as int)),
        decreases s@.len() - i,
    {
        assert(s@.take(i + 1).drop_last() =~= s@.take(i as int));
        if s[i] == '\t' {
            let ghost prev = r@;
            r.push(' ');
            r.push(' ');
            r.push(' ');
            r.push(' ');
            assert(r@ =~= prev + seq![' ', ' ', ' ', ' ']);
        } else {
            r.push(s[i]);
        }
        i = i + 1;
    }
    assert(s@.take(i as int) =~= s@);
    r
}

pub fn split_on_exec(s: &[char], c: char) -> (r: Vec<Vec<char>>)
    ensures
        views(r@) == split_on(s@, c),
{
    let n = s.len();
    let mut r: Vec<Vec<char>> = Vec::new();
    let mut start: usize = 0;
    assert(s@.skip(0) =~= s@);
    loop
        invariant
            n == s@.len(),
            start <= n,
            split_on(s@, c) == views(r@) + split_on(s@.skip(start as int), c),
        decreases n - start,
    {
        let rest = sub_chars(s, start, n);
        assert(rest@ =~= s@.skip(start as int));
        proof {
            lemma_find_char(rest@, c);
        }
        match find_char_exec(rest.as_slice(), c) {
            Some(i) => {
                let piece = sub_chars(rest.as_slice(), 0, i);
                assert(piece@ =~= rest@.take(i as int));
                assert(rest@.skip(i + 1) =~= s@.skip(start + i + 1));
                let ghost prev = views(r@);
                r.push(piece);
                assert(views(r@) =~= prev.push(piece@));
                assert(views(r@) + split_on(s@.skip(start + i + 1), c) =~= prev + split_on(
                    rest@,
                    c,
                ));
                start = start + i + 1;
            },
            None => {
                let ghost prev = views(r@);
                r.push(rest);
                assert(views(r@) =~= prev + split_on(rest@, c));
                return r;
            },
        }
    }
}

proof fn lemma_first_non_ws(l: Seq<char>)
    ensures
        match first_non_ws(l) {
            Some(i) => 0 <= i < l.len() && !is_ws(l[i]) && forall|k: int|
                0 <= k < i ==> is_ws(l[k]),
            None => forall|k: int| 0 <= k < l.len() ==> is_ws(l[k]),
        },
    decreases l.len(),
{
    if l.len() > 0 && is_ws(l[0]) {
        lemma_first_non_ws(l.drop_first());
        assert forall|k: int| 1 <= k < l.len() implies l[k] == l.drop_first()[k - 1] by {}
    }
}

fn first_non_ws_exec(l: &[char]) -> (r: Option<usize>)
    ensures
        match r {
            Some(k) => first_non_ws(l@) == Some(k as int),
            None => first_non_ws(l@) is None,
        },
{
    proof {
        lemma_first_non_ws(l@);
    }
    let mut i: usize = 0;
    while i < l.len()
        invariant
            i <= l@.len(),
            forall|k: int| 0 <= k < i ==> is_ws(l@[k]),
            match first_non_ws(l@) {
                Some(f) => 0 <= f < l@.len() && !is_ws(l@[f]) && forall|k: int|
                    0 <= k < f ==> is_ws(l@[k]),
                None => forall|k: int| 0 <= k < l@.len() ==> is_ws(l@[k]),
            },
        decreases l@.len() - i,
    {
        if !is_whitespace(l[i]) {
            return Some(i);
        }
        i = i + 1;
    }
    None
}

proof fn lemma_non_ws_run(s: Seq<char>)
    ensures
        0 <= non_ws_run(s) <= s.len(),
        forall|k: int| 0 <= k < non_ws_run(s) ==> !is_ws(s[k]),
        non_ws_run(s) < s.len() ==> is_ws(s[non_ws_run(s)]),
    decreases s.len(),
{
    if s.len() > 0 && !is_ws(s[0]) {
        lemma_non_ws_run(s.drop_first());
        assert forall|k: int| 1 <= k < s.len() implies s[k] == s.drop_first()[k - 1] by {}
    }
}

proof fn lemma_non_ws_run_at(s: Seq<char>, k: int)
    requires
        0 <= k <= s.len(),
        forall|j: int| 0 <= j < k ==> !is_ws(s[j]),
        k == s.len() || is_ws(s[k]),
    ensures
        non_ws_run(s) == k,
    decreases k,
{
    if k > 0 {
        lemma_non_ws_run_at(s.drop_first(), k - 1);
    }
}

fn non_ws_run_exec(s: &[char]) -> (r: usize)
    ensures
        r == non_ws_run(s@),
{
    let mut i: usize = 0;
    while i < s.len() && !is_whitespace(s[i])
        invariant
            i <= s@.len(),
            forall|j: int| 0 <= j < i ==> !is_ws(s@[j]),
        decreases s@.len() - i,
    {
        i = i + 1;
    }
    proof {
        lemma_non_ws_run_at(s@, i as int);
    }
    i
}

fn trim_start_exec(s: &[char]) -> (r: Vec<char>)
    ensures
        r@ == trim_start(s@),
{
    let mut i: usize = 0;
    assert(s@.skip(0) =~= s@);
    while i < s.len() && is_whitespace(s[i])
        invariant
            i <= s@.len(),
            trim_start(s@) == trim_start(s@.skip(i as int)),
        decreases s@.len() - i,
    {
        assert(s@.skip(i as int).drop_first() =~= s@.skip(i + 1));
        i = i + 1;
    }
    let r = sub_chars(s, i, s.len());
    assert(r@ =~= s@.skip(i as int));
    r
}

fn words_exec(s: &[char]) -> (r: Vec<Vec<char>>)
    ensures
        views(r@) == words(s@),
{
    let n = s.len();
    let mut r: Vec<Vec<char>> = Vec::new();
    let mut i: usize = 0;
    assert(s@.skip(0) =~= s@);
    while i < n
        invariant
            n == s@.len(),
            i <= n,
            words(s@) == views(r@) + words(s@.skip(i as int)),
        decreases n - i,
    {
        let ghost t = s@.skip(i as int);
        if is_whitespace(s[i]) {
            assert(t.drop_first() =~= s@.skip(i + 1));
            i = i + 1;
        } else {
            let rest = sub_chars(s, i, n);
            assert(rest@ =~= t);
            let k = non_ws_run_exec(rest.as_slice());
            proof {
                lemma_non_ws_run(t);
            }
            let w = sub_chars(rest.as_slice(), 0, k);
            assert(w@ =~= t.take(k as int));
            assert(t.skip(k as int) =~= s@.skip(i + k));
            let ghost prev = views(r@);
            r.push(w);
            assert(views(r@) =~= prev.push(w@));
            assert(views(r@) + words(s@.skip(i + k)) =~= prev + words(t));
            i = i + k;
        }
    }
    assert(s@.skip(n as int) =~= seq![]);
    assert(views(r@) + words(s@.skip(n as int)) =~= views(r@));
    r
}

/// Parses a tag line of the form `@kind rest` into a tag item.
pub fn parse_moonwave_style_tag(line: &[char]) -> (r: Option<DefinitionsItem>)
    ensures
        match r {
            Some(item) => spec_parse_tag(line@) == Some(item.view()),
            None => spec_parse_tag(line@) is None,
        },
{
    if line.len() == 0 || line[0] != '@' {
        return None;
    }
    let after = sub_chars(line, 1, line.len());
    assert(after@ =~= line@.skip(1));
    let k = non_ws_run_exec(after.as_slice());
    if k == 0 {
        return None;
    }
    proof {
        lemma_non_ws_run(after@);
    }
    let kind = sub_chars(after.as_slice(), 0, k);
    let tail = sub_chars(after.as_slice(), k, after.len());
    assert(kind@ =~= after@.take(k as int));
    assert(tail@ =~= after@.skip(k as int));
    let rest = trim_start_exec(tail.as_slice());
    let mut ws = words_exec(rest.as_slice());
    let separate = should_separate_tag_meta(kind.as_slice());
    let ghost wv = views(ws@);
    let has_name = ws.len() > 0 && separate;
    let name = if has_name {
        let first = ws.remove(0);
        assert(views(ws@) =~= wv.drop_first());
        first
    } else {
        Vec::new()
    };
    let sep = str_chars(" ");
    let contents = join_chars(&ws, sep.as_slice());
    let kind_text = chars_to_string(kind.as_slice());
    let mut builder = DefinitionsItemBuilder::new().with_kind(DefinitionsItemKind::Tag).with_name(
        kind_text.as_str(),
    );
    if name.len() > 0 {
        let name_text = chars_to_string(name.as_slice());
        builder = builder.with_meta(name_text.as_str());
    }
    if contents.len() > 0 {
        let contents_text = chars_to_string(contents.as_slice());
        builder = builder.with_value(contents_text.as_str());
    }
    match builder.build() {
        Ok(item) => {
            assert(item.view() =~= tag_item(kind@, rest@)) by {
                assert(sort_by_name(seq![]) =~= seq![]);
                if !has_name {
                    assert(name@ =~= seq![]);
                }
            }
            Some(item)
        },
        Err(_) => None,
    }
}

/// The smallest index of a first non-whitespace character among lines.
fn indent_exec(ls: &Vec<Vec<char>>) -> (r: usize)
    ensures
        r == indent_len(views(ls@)),
{
    let ghost lv = views(ls@);
    let mut indent: usize = usize::MAX;
    let mut i: usize = 0;
    assert(lv.take(0) =~= seq![]);
    while i < ls.len()
        invariant
            lv == views(ls@),
            i <= lv.len(),
            indent == indent_len(lv.take(i as int)),
        decreases lv.len() - i,
    {
        assert(lv.take(i + 1).drop_last() =~= lv.take(i as int));
        assert(lv.take(i + 1).last() == lv[i as int]);
        assert(lv[i as int] == ls@[i as int]@);
        let ghost m = indent_len(lv.take(i as int));
        assert(indent_len(lv.take(i + 1)) == (match first_non_ws(lv[i as int]) {
            Some(f) => if f < m {
                f
            } else {
                m
            },
            None => m,
        }));
        let fo = first_non_ws_exec(ls[i].as_slice());
        assert(ls@[i as int]@ == lv[i as int]);
        match fo {
            Some(f) => {
                assert(first_non_ws(lv[i as int]) == Some(f as int));
                if f < indent {
                    indent = f;
                }
            },
            None => {
                assert(first_non_ws(lv[i as int]) is None);
            },
        }
        assert(indent == indent_len(lv.take(i + 1)));
        i = i + 1;
    }
    assert(lv.take(lv.len() as int) =~= lv);
    indent
}

/// Whether a comment can be read; see `comment_readable`.
pub fn comment_is_readable(comment: &str) -> (r: bool)
    ensures
        r == comment_readable(comment@),
{
    let cs = str_chars(comment);
    let no_tabs = replace_tabs_exec(cs.as_slice());
    let ls = split_on_exec(no_tabs.as_slice(), '\n');
    let ghost lv = views(ls@);
    let indent = indent_exec(&ls);
    let mut i: usize = 0;
    while i < ls.len()
        invariant
            lv == views(ls@),
            lv == split_on(replace_tabs(comment@), '\n'),
            indent == indent_len(lv),
            i <= lv.len(),
            forall|q: int|
                0 <= q < i && #[trigger] first_non_ws(lv[q]) is Some ==> byte_boundary_index(
                    lv[q],
                    indent_len(lv),
                ) is Some,
        decreases lv.len() - i,
    {
        assert(ls@[i as int]@ == lv[i as int]);
        let fo = first_non_ws_exec(ls[i].as_slice());
        if fo.is_some() && !crate::text::on_char_boundary(ls[i].as_slice(), indent) {
            assert(first_non_ws(lv[i as int]) is Some);
            return false;
        }
        i = i + 1;
    }
    true
}

/// The items of a comment when it can be read: `None` when the common
/// indentation does not end on a character boundary of every line that is
/// not blank, where reading it fails.
pub fn try_parse_moonwave_style_comment(comment: &str) -> (r: Option<Vec<DefinitionsItem>>)
    ensures
        r is None <==> !comment_readable(comment@),
        r matches Some(items) ==> items_view(items@) == spec_parse_comment(comment@),
{
    if comment_is_readable(comment) {
        Some(parse_moonwave_style_comment(comment))
    } else {
        None
    }
}

/// Parses a Moonwave comment into tag items and a description item.
pub fn parse_moonwave_style_comment(comment: &str) -> (r: Vec<DefinitionsItem>)
    requires
        comment_readable(comment@),
    ensures
        items_view(r@) == spec_parse_comment(comment@),
{
    let cs = str_chars(comment);
    let no_tabs = replace_tabs_exec(cs.as_slice());
    let ls = split_on_exec(no_tabs.as_slice(), '\n');
    let ghost lv = views(ls@);
    // The smallest index of a first non-whitespace character.
    let indent = indent_exec(&ls);
    let ghost body = comment_body_lines(comment@);
    assert(lv == split_on(replace_tabs(comment@), '\n'));
    // Unindent each line, and sort the lines into tags and text.

    let mut items: Vec<DefinitionsItem> = Vec::new();
    let mut docs: Vec<Vec<char>> = Vec::new();
    let mut i: usize = 0;
    assert(body.take(0) =~= seq![]);
    while i < ls.len()
        invariant
            lv == views(ls@),
            lv == split_on(replace_tabs(comment@), '\n'),
            comment_readable(comment@),
            body == comment_body_lines(comment@),
            body.len() == lv.len(),
            indent == indent_len(lv),
            i <= lv.len(),
            items_view(items@) == tag_items(body.take(i as int)),
            views(docs@) == doc_lines(body.take(i as int)),
        decreases lv.len() - i,
    {
        let line = &ls[i];
        assert(line@ == lv[i as int]);
        let ghost ul = unindent_line(line@, indent as int);
        assert(body[i as int] == ul);
        let unindented = match first_non_ws_exec(line.as_slice()) {
            Some(_) => {
                assert(first_non_ws(lv[i as int]) is Some);
                let ghost b = byte_boundary_index(line@, indent as int).unwrap();
                proof {
                    lemma_byte_boundary_sound(line@, indent as int);
                }
                let ll = line.len();
                let mut k: usize = 0;
                let mut acc: usize = 0;
                assert(line@.take(0) =~= seq![]);
                while acc < indent
                    invariant
                        0 <= k <= b <= line@.len(),
                        ll == line@.len(),
                        acc == utf8_len(line@.take(k as int)),
                        utf8_len(line@.take(b)) == indent,
                    decreases b - k,
                {
                    proof {
                        if k == b {
                            assert(false);
                        }
                        lemma_utf8_len_push(line@, k as int);
                        if k + 1 < b {
                            lemma_utf8_len_strict(line@, k + 1, b);
                        }
                    }
                    acc = acc + char_width_exec(line[k]);
                    k = k + 1;
                }
                proof {
                    if k < b {
                        lemma_utf8_len_strict(line@, k as int, b);
                    }
                }
                let piece = sub_chars(line.as_slice(), k, ll);
                assert(piece@ =~= ul);
                piece
            },
            None => {
                let piece = sub_chars(line.as_slice(), 0, line.len());
                assert(piece@ =~= ul);
                piece
            },
        };
        assert(body.take(i + 1).drop_last() =~= body.take(i as int));
        assert(body.take(i + 1).last() == ul);
        match parse_moonwave_style_tag(unindented.as_slice()) {
            Some(tag) => {
                proof {
                    super::item::lemma_items_view_push(items@, tag);
                }
                items.push(tag);
            },
            None => {
                let ghost prev = views(docs@);
                docs.push(unindented);
                assert(views(docs@) =~= prev.push(ul));
            },
        }
        i = i + 1;
    }
    assert(body.take(lv.len() as int) =~= body);
    if docs.len() > 0 {
        let nl = str_chars("\n");
        let text = join_chars(&docs, nl.as_slice());
        let text_s = chars_to_string(text.as_slice());
        let built = DefinitionsItemBuilder::new().with_kind(DefinitionsItemKind::Description).with_value(
            text_s.as_str(),
        ).build();
        match built {
            Ok(desc) => {
                assert(desc.view() =~= description_item(join(doc_lines(body), "\n"@))) by {
                    assert(sort_by_name(seq![]) =~= seq![]);
                }
                let ghost prev = items@;
                proof {
                    super::item::lemma_items_view_push(items@, desc);
                }
                items.push(desc);
                assert(items_view(items@) =~= spec_parse_comment(comment@));
            },
            Err(_) => {},
        }
    } else {
        assert(items_view(items@) =~= spec_parse_comment(comment@));
    }
    items
}

} // verus!
