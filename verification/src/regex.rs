//! Regular expressions for scripts: compiling a pattern, searching,
//! splitting and replacing text, and the matches and capture groups that a
//! script gets, with Luau's 1-based positions.
//!
//! Matching itself is done by the `regex` crate; what it finds is named by
//! the pattern and the text, and this module states what it does with that.

use vstd::prelude::*;

use crate::text::str_chars;
use vstd::utf8::encode_utf8;

verus! {

/// The compiled regular expressions of the `regex` crate.
#[verifier::external_type_specification]
#[verifier::external_body]
pub struct ExRegex(regex::Regex);

/// The error of compiling a pattern that is not a valid regular expression.
#[verifier::external_type_specification]
#[verifier::external_body]
pub struct ExRegexError(regex::Error);

/// Whether a pattern compiles.
pub uninterp spec fn spec_regex_valid(pattern: Seq<char>) -> bool;

/// The byte range of the first match of a pattern in a text, if any.
pub uninterp spec fn spec_regex_find(pattern: Seq<char>, text: Seq<char>) -> Option<(int, int)>;

/// The byte ranges of the capture groups of the first match of a pattern in
/// a text, if there is a match: the whole match first, then each group in
/// the order of its opening parenthesis, `None` for a group that took no
/// part.
pub uninterp spec fn spec_regex_captures(pattern: Seq<char>, text: Seq<char>) -> Option<
    Seq<Option<(int, int)>>,
>;

/// The names of the capture groups of a pattern, in order, the whole match
/// (never named) first.
pub uninterp spec fn spec_regex_capture_names(pattern: Seq<char>) -> Seq<Option<Seq<char>>>;

/// The pieces of a text between the matches of a pattern.
pub uninterp spec fn spec_regex_split(pattern: Seq<char>, text: Seq<char>) -> Seq<Seq<char>>;

/// A text with the first match of a pattern replaced.
pub uninterp spec fn spec_regex_replace(
    pattern: Seq<char>,
    text: Seq<char>,
    replacement: Seq<char>,
) -> Seq<char>;

/// A text with every match of a pattern replaced.
pub uninterp spec fn spec_regex_replace_all(
    pattern: Seq<char>,
    text: Seq<char>,
    replacement: Seq<char>,
) -> Seq<char>;

/// A template with `$name` and `$n` replaced by the capture groups of the
/// first match of a pattern in a text.
pub uninterp spec fn spec_regex_expand(
    pattern: Seq<char>,
    text: Seq<char>,
    template: Seq<char>,
) -> Seq<char>;

/// The bytes of a range of a text, as the text that they encode.
pub open spec fn byte_slice_is(text: Seq<char>, start: int, end: int, piece: Seq<char>) -> bool {
    0 <= start <= end <= encode_utf8(text).len() && encode_utf8(piece) == encode_utf8(
        text,
    ).subrange(start, end)
}

/// A compiled regular expression, with the pattern it was compiled from.
#[derive(Debug)]
pub struct LuaRegex {
    inner: regex::Regex,
    pattern: String,
}

/// Compiles a pattern.
///
/// Trusted: calls `regex::Regex::new`, which succeeds exactly on the
/// patterns that compile (named by `spec_regex_valid`); the pattern is kept
/// beside the compiled expression.
#[verifier::external_body]
fn regex_new(pattern: String) -> (r: Result<LuaRegex, regex::Error>)
    ensures
        r is Ok <==> spec_regex_valid(pattern@),
        r matches Ok(re) ==> re.view() == pattern@,
{
    match regex::Regex::new(&pattern) {
        Ok(inner) => Ok(LuaRegex { inner, pattern }),
        Err(e) => Err(e),
    }
}

/// The first match of the expression in a text: its byte range and the
/// text it matched.
///
/// Trusted: calls `Regex::find`, whose match is the first one in the text
/// (named by `spec_regex_find`); its documentation gives the match as byte
/// offsets into the text and the substring between them.
#[verifier::external_body]
fn regex_find(re: &LuaRegex, text: &str) -> (r: Option<(usize, usize, String)>)
    ensures
        match r {
            Some((s, e, m)) => spec_regex_find(re.view(), text@) == Some((s as int, e as int))
                && byte_slice_is(text@, s as int, e as int, m@),
            None => spec_regex_find(re.view(), text@) is None,
        },
{
    re.inner.find(text).map(|m| (m.start(), m.end(), m.as_str().to_string()))
}

/// Whether the expression matches anywhere in a text.
///
/// Trusted: calls `Regex::is_match`, whose documentation says it is true
/// exactly when there is a match anywhere in the text, that is when `find`
/// finds one.
#[verifier::external_body]
fn regex_is_match(re: &LuaRegex, text: &str) -> (r: bool)
    ensures
        r == (spec_regex_find(re.view(), text@) is Some),
{
    re.inner.is_match(text)
}

/// The byte range of a group, if it took part.
pub open spec fn group_range(g: Option<(usize, usize, String)>) -> Option<(int, int)> {
    match g {
        Some(t) => Some((t.0 as int, t.1 as int)),
        None => None,
    }
}

/// The byte ranges of groups.
pub open spec fn group_ranges(gs: Seq<Option<(usize, usize, String)>>) -> Seq<Option<(int, int)>> {
    gs.map_values(|g: Option<(usize, usize, String)>| group_range(g))
}

/// Whether each group that took part holds the text of its range.
pub open spec fn groups_hold_text(gs: Seq<Option<(usize, usize, String)>>, text: Seq<char>) -> bool {
    forall|i: int|
        0 <= i < gs.len() ==> (#[trigger] gs[i] matches Some(t) ==> byte_slice_is(
            text,
            t.0 as int,
            t.1 as int,
            t.2@,
        ))
}

/// The capture groups of the first match of the expression in a text,
/// each with its byte range and the text it matched.
///
/// Trusted: calls `Regex::captures`, whose groups (named by
/// `spec_regex_captures`) are given as byte ranges of the text and the
/// substrings between them; the first group is the whole match and always
/// takes part. Its documentation searches for the same first match as
/// `Regex::find`, so the first group is the range that `find` finds.
#[verifier::external_body]
fn regex_captures(re: &LuaRegex, text: &str) -> (r: Option<Vec<Option<(usize, usize, String)>>>)
    ensures
        match r {
            Some(gs) => spec_regex_captures(re.view(), text@) == Some(group_ranges(gs@))
                && gs@.len() >= 1 && gs@[0] is Some && groups_hold_text(gs@, text@),
            None => spec_regex_captures(re.view(), text@) is None,
        },
        match r {
            Some(gs) => spec_regex_find(re.view(), text@) == group_range(gs@[0]),
            None => spec_regex_find(re.view(), text@) is None,
        },
{
    re.inner.captures(text).map(
        |c| c.iter().map(|g| g.map(|m| (m.start(), m.end(), m.as_str().to_string()))).collect(),
    )
}

/// The texts of optional names.
pub open spec fn names_view(ns: Seq<Option<String>>) -> Seq<Option<Seq<char>>> {
    ns.map_values(
        |n: Option<String>|
            match n {
                Some(s) => Some(s@),
                None => None,
            },
    )
}

/// A copy of a compiled expression.
///
/// Trusted: calls `Regex::clone`, which gives the same expression; the
/// pattern is copied beside it.
#[verifier::external_body]
fn regex_clone(re: &LuaRegex) -> (r: LuaRegex)
    ensures
        r.view() == re.view(),
{
    LuaRegex { inner: re.inner.clone(), pattern: re.pattern.clone() }
}

/// The names of the capture groups of the expression.
///
/// Trusted: calls `Regex::capture_names`, which depends on the pattern alone
/// (named by `spec_regex_capture_names`) and always yields the unnamed
/// whole match first.
#[verifier::external_body]
fn regex_capture_names(re: &LuaRegex) -> (r: Vec<Option<String>>)
    ensures
        names_view(r@) == spec_regex_capture_names(re.view()),
{
    re.inner.capture_names().map(|n| n.map(|s| s.to_string())).collect()
}

/// The pieces of a text between the matches of the expression.
///
/// Trusted: calls `Regex::split`, whose pieces depend on the pattern and
/// the text alone (named by `spec_regex_split`).
#[verifier::external_body]
fn regex_split(re: &LuaRegex, text: &str) -> (r: Vec<String>)
    ensures
        r@.map_values(|s: String| s@) == spec_regex_split(re.view(), text@),
{
    re.inner.split(text).map(|s| s.to_string()).collect()
}

/// A text with the first match of the expression replaced.
///
/// Trusted: calls `Regex::replace` with the replacement string, in which
/// `$name` and `$n` stand for capture groups; the result depends on the
/// pattern, the text and the replacement alone (named by
/// `spec_regex_replace`).
#[verifier::external_body]
fn regex_replace(re: &LuaRegex, text: &str, replacement: &str) -> (r: String)
    ensures
        r@ == spec_regex_replace(re.view(), text@, replacement@),
{
    re.inner.replace(text, replacement).to_string()
}

/// A text with every match of the expression replaced.
///
/// Trusted: calls `Regex::replace_all`, as `regex_replace` but for every
/// match (named by `spec_regex_replace_all`).
#[verifier::external_body]
fn regex_replace_all(re: &LuaRegex, text: &str, replacement: &str) -> (r: String)
    ensures
        r@ == spec_regex_replace_all(re.view(), text@, replacement@),
{
    re.inner.replace_all(text, replacement).to_string()
}

/// A template expanded with the capture groups of the first match of the
/// expression in a text.
///
/// Trusted: calls `Captures::expand` on the captures of the first match,
/// which depends on the pattern, the text and the template alone (named by
/// `spec_regex_expand`); it is called only where there is a match.
#[verifier::external_body]
fn regex_expand(re: &LuaRegex, text: &str, template: &str) -> (r: String)
    requires
        spec_regex_captures(re.view(), text@) is Some,
    ensures
        r@ == spec_regex_expand(re.view(), text@, template@),
{
    let mut out = String::new();
    if let Some(c) = re.inner.captures(text) {
        c.expand(template, &mut out);
    }
    out
}

impl LuaRegex {
    /// The pattern that the expression was compiled from.
    pub closed spec fn view(&self) -> Seq<char> {
        self.pattern@
    }

    /// Compiles a pattern, or fails with the `regex` crate's error when it
    /// is not a valid regular expression.
    pub fn new(pattern: String) -> (r: Result<Self, regex::Error>)
        ensures
            r is Ok <==> spec_regex_valid(pattern@),
            r matches Ok(re) ==> re.view() == pattern@,
    {
        regex_new(pattern)
    }

    /// Whether the expression matches anywhere in a text.
    pub fn is_match(&self, text: &str) -> (r: bool)
        ensures
            r == (spec_regex_find(self.view(), text@) is Some),
    {
        regex_is_match(self, text)
    }

    /// The first match of the expression in a text.
    pub fn find(&self, text: &str) -> (r: Option<LuaMatch>)
        ensures
            match r {
                Some(m) => spec_regex_find(self.view(), text@) == Some(
                    (m.view().start as int, m.view().end as int),
                ) && byte_slice_is(text@, m.view().start as int, m.view().end as int, m.view().text),
                None => spec_regex_find(self.view(), text@) is None,
            },
    {
        match regex_find(self, text) {
            Some((s, e, t)) => Some(LuaMatch { text: t, start: s, end: e }),
            None => None,
        }
    }

    /// The capture groups of the first match of the expression in a text,
    /// if there is a match.
    pub fn captures(&self, text: &str) -> (r: Option<LuaCaptures>)
        ensures
            r is Some <==> spec_regex_captures(self.view(), text@) is Some,
            r matches Some(c) ==> c.wf() && c.text() == text@ && c.pattern() == self.view(),
    {
        match regex_captures(self, text) {
            Some(groups) => {
                let names = regex_capture_names(self);
                let regex = regex_clone(self);
                Some(LuaCaptures { regex, text: text.to_string(), groups, names })
            },
            None => None,
        }
    }

    /// The pieces of a text between the matches of the expression.
    pub fn split(&self, text: &str) -> (r: Vec<String>)
        ensures
            r@.map_values(|s: String| s@) == spec_regex_split(self.view(), text@),
    {
        regex_split(self, text)
    }

    /// A text with the first match replaced.
    pub fn replace(&self, haystack: &str, replacer: &str) -> (r: String)
        ensures
            r@ == spec_regex_replace(self.view(), haystack@, replacer@),
    {
        regex_replace(self, haystack, replacer)
    }

    /// A text with every match replaced.
    pub fn replace_all(&self, haystack: &str, replacer: &str) -> (r: String)
        ensures
            r@ == spec_regex_replace_all(self.view(), haystack@, replacer@),
    {
        regex_replace_all(self, haystack, replacer)
    }

    /// How a script sees the expression: `Regex(pattern)`.
    pub fn to_display(&self) -> (r: String)
        ensures
            r@ == "Regex("@ + self.view() + ")"@,
    {
        let mut r = "Regex(".to_string();
        r.append(self.pattern.as_str());
        r.append(")");
        r
    }
}

/// A match as a script sees it.
#[derive(Debug, Clone)]
pub struct LuaMatch {
    text: String,
    start: usize,
    end: usize,
}

/// The mathematical value of a match: its byte range and the text it
/// matched.
pub ghost struct MatchView {
    pub start: usize,
    pub end: usize,
    pub text: Seq<char>,
}

impl LuaMatch {
    /// The byte range and the text of the match.
    pub closed spec fn view(&self) -> MatchView {
        MatchView { start: self.start, end: self.end, text: self.text@ }
    }

    /// Where the match starts, counted from 1.
    pub fn start(&self) -> (r: usize)
        ensures
            r == (if self.view().start == usize::MAX {
                usize::MAX as int
            } else {
                self.view().start + 1
            }),
    {
        self.start.saturating_add(1)
    }

    /// Where the match finishes, counted from 1 and inclusive.
    pub fn finish(&self) -> (r: usize)
        ensures
            r == self.view().end,
    {
        self.end
    }

    /// The number of bytes matched.
    pub fn len(&self) -> (r: usize)
        ensures
            r == (if self.view().start < self.view().end {
                self.view().end - self.view().start
            } else {
                0
            }),
    {
        if self.start < self.end {
            self.end - self.start
        } else {
            0
        }
    }

    /// Whether the match is empty.
    pub fn is_empty(&self) -> (r: bool)
        ensures
            r == !(self.view().start < self.view().end),
    {
        !(self.start < self.end)
    }

    /// The text that was matched.
    pub fn text(&self) -> (r: String)
        ensures
            r@ == self.view().text,
    {
        self.text.clone()
    }

    /// How a script sees the match: `RegexMatch(text)`.
    pub fn to_display(&self) -> (r: String)
        ensures
            r@ == "RegexMatch("@ + self.view().text + ")"@,
    {
        let mut r = "RegexMatch(".to_string();
        r.append(self.text.as_str());
        r.append(")");
        r
    }
}

/// The capture groups of a match as a script sees them.
#[derive(Debug)]
pub struct LuaCaptures {
    regex: LuaRegex,
    text: String,
    groups: Vec<Option<(usize, usize, String)>>,
    names: Vec<Option<String>>,
}

/// The index of the first group with a name.
pub open spec fn name_index(ns: Seq<Option<Seq<char>>>, name: Seq<char>) -> Option<int>
    decreases ns.len(),
{
    if ns.len() == 0 {
        None
    } else {
        match name_index(ns.drop_last(), name) {
            Some(i) => Some(i),
            None => if ns.last() == Some(name) {
                Some(ns.len() - 1)
            } else {
                None
            },
        }
    }
}

impl LuaCaptures {
    /// The text that was searched.
    pub closed spec fn text(&self) -> Seq<char> {
        self.text@
    }

    /// The pattern that was searched for.
    pub closed spec fn pattern(&self) -> Seq<char> {
        self.regex.view()
    }

    /// The byte ranges of the groups.
    pub closed spec fn ranges(&self) -> Seq<Option<(int, int)>> {
        group_ranges(self.groups@)
    }

    /// The names of the groups.
    pub closed spec fn names(&self) -> Seq<Option<Seq<char>>> {
        names_view(self.names@)
    }

    /// Whether the groups are those of the first match of the pattern in
    /// the text, with the names of the pattern's groups.
    pub closed spec fn wf(&self) -> bool {
        &&& spec_regex_captures(self.pattern(), self.text()) == Some(self.ranges())
        &&& self.groups@.len() >= 1
        &&& groups_hold_text(self.groups@, self.text@)
        &&& self.names() == spec_regex_capture_names(self.pattern())
    }

    /// The number of capture groups, the whole match not counted.
    pub fn len(&self) -> (r: usize)
        requires
            self.wf(),
        ensures
            r == self.ranges().len() - 1,
    {
        self.groups.len() - 1
    }

    /// The group with an index, the whole match being 0, if it took part.
    pub fn get(&self, n: usize) -> (r: Option<LuaMatch>)
        requires
            self.wf(),
        ensures
            match r {
                Some(m) => n < self.ranges().len() && self.ranges()[n as int] == Some(
                    (m.view().start as int, m.view().end as int),
                ) && byte_slice_is(
                    self.text(),
                    m.view().start as int,
                    m.view().end as int,
                    m.view().text,
                ),
                None => n >= self.ranges().len() || self.ranges()[n as int] is None,
            },
    {
        if n >= self.groups.len() {
            return None;
        }
        assert(self.ranges()[n as int] == group_range(self.groups@[n as int]));
        match &self.groups[n] {
            Some(t) => {
                assert(groups_hold_text(self.groups@, self.text@));
                assert(self.groups@[n as int] matches Some(u) ==> byte_slice_is(
                    self.text@,
                    u.0 as int,
                    u.1 as int,
                    u.2@,
                ));
                Some(LuaMatch { text: t.2.clone(), start: t.0, end: t.1 })
            },
            None => None,
        }
    }

    /// The group with a name, if the pattern has such a group and it took
    /// part.
    pub fn group(&self, name: &str) -> (r: Option<LuaMatch>)
        requires
            self.wf(),
        ensures
            match name_index(self.names(), name@) {
                Some(i) => match r {
                    Some(m) => i < self.ranges().len() && self.ranges()[i] == Some(
                        (m.view().start as int, m.view().end as int),
                    ) && byte_slice_is(
                        self.text(),
                        m.view().start as int,
                        m.view().end as int,
                        m.view().text,
                    ),
                    None => i >= self.ranges().len() || self.ranges()[i] is None,
                },
                None => r is None,
            },
    {
        let mut i: usize = 0;
        let ghost ns = self.names();
        while i < self.names.len()
            invariant
                self.wf(),
                i <= self.names@.len(),
                ns == names_view(self.names@),
                ns == self.names(),
                name_index(ns, name@) is None ==> name_index(ns.take(i as int), name@) is None,
                name_index(ns.take(i as int), name@) is None,
                forall|k: int| 0 <= k < i ==> ns[k] != Some(name@),
            decreases self.names@.len() - i,
        {
            let ghost t = ns.take(i + 1);
            assert(t.drop_last() =~= ns.take(i as int));
            assert(t.last() == ns[i as int]);
            let is_it = match &self.names[i] {
                Some(s) => crate::text::chars_eq(
                    str_chars(s.as_str()).as_slice(),
                    str_chars(name).as_slice(),
                ),
                None => false,
            };
            if is_it {
                proof {
                    lemma_name_index_prefix(ns, name@, i as int);
                }
                return self.get(i);
            }
            i = i + 1;
        }
        assert(ns.take(i as int) =~= ns);
        None
    }

    /// A template with `$name` and `$n` replaced by the groups.
    pub fn format(&self, template: &str) -> (r: String)
        requires
            self.wf(),
        ensures
            r@ == spec_regex_expand(self.pattern(), self.text(), template@),
    {
        regex_expand(&self.regex, self.text.as_str(), template)
    }

    /// How a script sees the groups: `RegexCaptures(n)`.
    pub fn to_display(&self) -> (r: String)
        requires
            self.wf(),
        ensures
            r@ == "RegexCaptures("@ + crate::formatting::decimal((self.ranges().len() - 1) as nat)
                + ")"@,
    {
        let n = self.len();
        let mut r = "RegexCaptures(".to_string();
        let d = crate::formatting::decimal_exec(n as u64);
        crate::text::append_chars(&mut r, d.as_slice());
        r.append(")");
        r
    }
}

/// Where the first matching name is at `i`, `name_index` finds it there.
proof fn lemma_name_index_prefix(ns: Seq<Option<Seq<char>>>, name: Seq<char>, i: int)
    requires
        0 <= i < ns.len(),
        ns[i] == Some(name),
        forall|k: int| 0 <= k < i ==> ns[k] != Some(name),
    ensures
        name_index(ns, name) == Some(i),
    decreases ns.len(),
{
    if i < ns.len() - 1 {
        let d = ns.drop_last();
        assert(d[i] == ns[i]);
        assert forall|k: int| 0 <= k < i implies d[k] != Some(name) by {
            assert(d[k] == ns[k]);
        }
        lemma_name_index_prefix(d, name, i);
    } else {
        lemma_name_index_none(ns.drop_last(), name);
    }
}

/// Where no name matches, `name_index` finds nothing.
proof fn lemma_name_index_none(ns: Seq<Option<Seq<char>>>, name: Seq<char>)
    requires
        forall|k: int| 0 <= k < ns.len() ==> ns[k] != Some(name),
    ensures
        name_index(ns, name) is None,
    decreases ns.len(),
{
    if ns.len() > 0 {
        let d = ns.drop_last();
        assert forall|k: int| 0 <= k < d.len() implies d[k] != Some(name) by {
            assert(d[k] == ns[k]);
        }
        lemma_name_index_none(d, name);
    }
}

} // verus!
