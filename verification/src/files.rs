//! Script files: shebang stripping, descriptions in leading comments, and
//! the decisions of script discovery.

use vstd::prelude::*;

use crate::text::{
    byte_boundary_index, char_width_exec, chars_eq_str, chars_to_string, is_alphanumeric, join,
    join_chars, lemma_byte_boundary_sound, lemma_utf8_len_push, lemma_utf8_len_strict, lines,
    lines_of, spec_is_alphanumeric, starts_with_chars, str_chars, sub_chars, utf8_len, views,
};

verus! {

// ---------------------------------------------------------------------
// Shebang lines

/// The index of the first occurrence of byte `c` in `b`.
pub open spec fn find_byte(b: Seq<u8>, c: u8) -> Option<int>
    decreases b.len(),
{
    if b.len() == 0 {
        None
    } else if b[0] == c {
        Some(0)
    } else {
        match find_byte(b.drop_first(), c) {
            Some(i) => Some(i + 1),
            None => None,
        }
    }
}

/// Where `find_byte` finds a byte, the byte is there, and nowhere before.
pub proof fn lemma_find_byte(b: Seq<u8>, c: u8)
    ensures
        match find_byte(b, c) {
            Some(i) => 0 <= i < b.len() && b[i] == c && forall|k: int| 0 <= k < i ==> b[k] != c,
            None => forall|k: int| 0 <= k < b.len() ==> b[k] != c,
        },
    decreases b.len(),
{
    if b.len() > 0 && b[0] != c {
        lemma_find_byte(b.drop_first(), c);
        assert forall|k: int| 1 <= k < b.len() implies b[k] == b.drop_first()[k - 1] by {}
    }
}

/// Whether the bytes begin with `#!`.
pub open spec fn has_shebang(b: Seq<u8>) -> bool {
    b.len() >= 2 && b[0] == 0x23u8 && b[1] == 0x21u8
}

/// What `strip_shebang` leaves: a first line that begins with `#!` is
/// removed up to, but not including, its newline.
pub open spec fn spec_strip_shebang(b: Seq<u8>) -> Seq<u8> {
    if has_shebang(b) {
        match find_byte(b, 0x0au8) {
            Some(i) => b.skip(i),
            None => b,
        }
    } else {
        b
    }
}

/// Removes a shebang line from script contents, keeping its newline so
/// that line numbers stay the same.
pub fn strip_shebang(contents: Vec<u8>) -> (r: Vec<u8>)
    ensures
        r@ == spec_strip_shebang(contents@),
{
    let n = contents.len();
    if n >= 2 && contents[0] == 0x23u8 && contents[1] == 0x21u8 {
        proof {
            lemma_find_byte(contents@, 0x0au8);
        }
        let mut i: usize = 0;
        while i < n
            invariant
                n == contents@.len(),
                i <= n,
                has_shebang(contents@),
                forall|k: int| 0 <= k < i ==> contents@[k] != 0x0au8,
            decreases n - i,
        {
            if contents[i] == 0x0au8 {
                proof {
                    lemma_find_byte(contents@, 0x0au8);
                }
                let mut r: Vec<u8> = Vec::new();
                let mut j: usize = i;
                while j < n
                    invariant
                        i <= j <= n,
                        n == contents@.len(),
                        r@ == contents@.subrange(i as int, j as int),
                    decreases n - j,
                {
                    r.push(contents[j]);
                    assert(contents@.subrange(i as int, j + 1) =~= contents@.subrange(
                        i as int,
                        j as int,
                    ).push(contents@[j as int]));
                    j = j + 1;
                }
                assert(find_byte(contents@, 0x0au8) == Some(i as int));
                assert(r@ =~= contents@.skip(i as int));
                return r;
            }
            i = i + 1;
        }
        contents
    } else {
        contents
    }
}

/// The number of newlines in some bytes.
pub open spec fn newline_count(b: Seq<u8>) -> nat {
    b.filter(|x: u8| x == 0x0au8).len()
}

/// Stripping a shebang keeps the number of newlines, so line numbers in
/// the rest of the script stay the same.
pub proof fn lemma_strip_shebang_keeps_newlines(b: Seq<u8>)
    ensures
        newline_count(spec_strip_shebang(b)) == newline_count(b),
{
    lemma_find_byte(b, 0x0au8);
    if has_shebang(b) {
        if let Some(i) = find_byte(b, 0x0au8) {
            let f = |x: u8| x == 0x0au8;
            assert(b =~= b.take(i) + b.skip(i));
            Seq::filter_distributes_over_add(b.take(i), b.skip(i), f);
            lemma_filter_no_newline(b.take(i));
        }
    }
}

proof fn lemma_filter_no_newline(s: Seq<u8>)
    requires
        forall|k: int| 0 <= k < s.len() ==> s[k] != 0x0au8,
    ensures
        s.filter(|x: u8| x == 0x0au8) =~= Seq::<u8>::empty(),
    decreases s.len(),
{
    reveal(Seq::filter);
    if s.len() > 0 {
        lemma_filter_no_newline(s.drop_last());
    }
}

/// Stripping a shebang twice strips no more than once.
pub proof fn lemma_strip_shebang_idempotent(b: Seq<u8>)
    ensures
        spec_strip_shebang(spec_strip_shebang(b)) == spec_strip_shebang(b),
{
    lemma_find_byte(b, 0x0au8);
}

// ---------------------------------------------------------------------
// Descriptions in leading comments

/// The prefix of a description comment line.
pub open spec fn comment_prefix() -> Seq<char> {
    "-->"@
}

/// The leading lines that are description comments, without their prefix.
pub open spec fn comment_lines(ls: Seq<Seq<char>>) -> Seq<Seq<char>>
    decreases ls.len(),
{
    if ls.len() > 0 && comment_prefix().is_prefix_of(ls[0]) {
        seq![ls[0].skip(comment_prefix().len() as int)] + comment_lines(ls.drop_first())
    } else {
        seq![]
    }
}

/// The index of the first alphanumeric character of a line.
pub open spec fn first_alnum(l: Seq<char>) -> Option<int>
    decreases l.len(),
{
    if l.len() == 0 {
        None
    } else if spec_is_alphanumeric(l[0]) {
        Some(0)
    } else {
        match first_alnum(l.drop_first()) {
            Some(i) => Some(i + 1),
            None => None,
        }
    }
}

/// The byte offset of the first alphanumeric character of a line.
pub open spec fn alnum_offset(l: Seq<char>) -> int {
    utf8_len(l.take(first_alnum(l).unwrap()))
}

/// The smallest byte offset of a first alphanumeric character among lines,
/// starting from `usize::MAX`.
pub open spec fn min_offset(ls: Seq<Seq<char>>) -> int
    decreases ls.len(),
{
    if ls.len() == 0 {
        usize::MAX as int
    } else {
        let a = alnum_offset(ls.last());
        let m = min_offset(ls.drop_last());
        if a < m {
            a
        } else {
            m
        }
    }
}

/// Each line with its first `k` bytes removed.
pub open spec fn unindent(ls: Seq<Seq<char>>, k: int) -> Seq<Seq<char>> {
    ls.map_values(|l: Seq<char>| l.skip(byte_boundary_index(l, k).unwrap()))
}

/// The description in the leading comment lines of a script: the comment
/// lines, with the common indentation before their text removed, joined by
/// single spaces.
pub open spec fn spec_description(contents: Seq<char>) -> Option<Seq<char>> {
    let cl = comment_lines(lines(contents));
    if cl.len() == 0 {
        None
    } else {
        Some(join(unindent(cl, min_offset(cl)), " "@))
    }
}

/// The contents on which reading a description does not panic: every
/// comment line has an alphanumeric character, and the common indentation
/// ends on a character boundary of every comment line.
pub open spec fn description_readable(contents: Seq<char>) -> bool {
    let cl = comment_lines(lines(contents));
    forall|i: int|
        0 <= i < cl.len() ==> {
            &&& #[trigger] first_alnum(cl[i]) is Some
            &&& alnum_offset(cl[i]) <= usize::MAX
            &&& byte_boundary_index(cl[i], min_offset(cl)) is Some
        }
}

proof fn lemma_first_alnum(l: Seq<char>)
    ensures
        match first_alnum(l) {
            Some(i) => 0 <= i < l.len() && spec_is_alphanumeric(l[i]) && forall|k: int|
                0 <= k < i ==> !spec_is_alphanumeric(l[k]),
            None => forall|k: int| 0 <= k < l.len() ==> !spec_is_alphanumeric(l[k]),
        },
    decreases l.len(),
{
    if l.len() > 0 && !spec_is_alphanumeric(l[0]) {
        lemma_first_alnum(l.drop_first());
        assert forall|k: int| 1 <= k < l.len() implies l[k] == l.drop_first()[k - 1] by {}
    }
}

proof fn lemma_comment_lines_step(ls: Seq<Seq<char>>, i: int)
    requires
        0 <= i < ls.len(),
        forall|k: int| 0 <= k <= i ==> comment_prefix().is_prefix_of(#[trigger] ls[k]),
    ensures
        comment_lines(ls) == comment_lines(ls.take(i)).push(
            ls[i].skip(comment_prefix().len() as int),
        ) + comment_lines(ls.skip(i + 1)),
        comment_lines(ls.take(i + 1)) == comment_lines(ls.take(i)).push(
            ls[i].skip(comment_prefix().len() as int),
        ),
    decreases i,
{
    reveal_strlit("-->");
    if i == 0 {
        assert(ls.take(0) =~= seq![]);
        assert(ls.drop_first() =~= ls.skip(1));
        assert(ls.take(1).drop_first() =~= seq![]);
        assert(comment_lines(ls.take(1).drop_first()) =~= seq![]);
        assert(ls.take(1)[0] == ls[0]);
        assert(comment_prefix().is_prefix_of(ls.take(1)[0]));
        assert(comment_lines(ls.take(1)) =~= seq![ls[0].skip(3)]);
    } else {
        let t = ls.drop_first();
        lemma_comment_lines_step(t, i - 1);
        assert(t.take(i - 1) =~= ls.take(i).drop_first());
        assert(t.skip(i) =~= ls.skip(i + 1));
        assert(t.take(i) =~= ls.take(i + 1).drop_first());
        assert(ls.take(i)[0] == ls[0]);
        assert(ls.take(i + 1)[0] == ls[0]);
    }
}

proof fn lemma_comment_lines_stop(ls: Seq<Seq<char>>, i: int)
    requires
        0 <= i <= ls.len(),
        i == ls.len() || !comment_prefix().is_prefix_of(ls[i]),
        forall|k: int| 0 <= k < i ==> comment_prefix().is_prefix_of(#[trigger] ls[k]),
    ensures
        comment_lines(ls) == comment_lines(ls.take(i)),
    decreases i,
{
    if i == 0 {
        assert(ls.take(0) =~= seq![]);
    } else {
        let t = ls.drop_first();
        lemma_comment_lines_stop(t, i - 1);
        assert(t.take(i - 1) =~= ls.take(i).drop_first());
        assert(ls.take(i)[0] == ls[0]);
    }
}

/// The leading description comment lines of a text, without their prefix.
fn comment_lines_exec(contents: &str) -> (r: Vec<Vec<char>>)
    ensures
        views(r@) == comment_lines(lines(contents@)),
{
    let cs = str_chars(contents);
    let ls = lines_of(cs.as_slice());
    let ghost all = views(ls@);
    let mut comment: Vec<Vec<char>> = Vec::new();
    let mut i: usize = 0;
    while i < ls.len()
        invariant
            all == views(ls@),
            i <= ls@.len(),
            forall|k: int| 0 <= k < i ==> comment_prefix().is_prefix_of(#[trigger] all[k]),
            views(comment@) == comment_lines(all.take(i as int)),
        ensures
            i <= ls@.len(),
            i == ls@.len() || !comment_prefix().is_prefix_of(all[i as int]),
            forall|k: int| 0 <= k < i ==> comment_prefix().is_prefix_of(#[trigger] all[k]),
            views(comment@) == comment_lines(all.take(i as int)),
        decreases ls@.len() - i,
    {
        if starts_with_chars(ls[i].as_slice(), "-->") {
            proof {
                reveal_strlit("-->");
                lemma_comment_lines_step(all, i as int);
            }
            let line = &ls[i];
            let stripped = sub_chars(line.as_slice(), 3, line.len());
            assert(stripped@ =~= all[i as int].skip(3));
            let ghost before = views(comment@);
            comment.push(stripped);
            assert(views(comment@) =~= before.push(stripped@));
            i = i + 1;
        } else {
            proof {
                reveal_strlit("-->");
            }
            assert(all[i as int] == ls@[i as int]@);
            break;
        }
    }
    proof {
        reveal_strlit("-->");
        lemma_comment_lines_stop(all, i as int);
    }
    comment
}

/// The byte offset of the first alphanumeric character of a line, if the
/// line has one and the offset fits in `usize`.
fn alnum_offset_exec(line: &Vec<char>) -> (r: Option<usize>)
    ensures
        match r {
            Some(o) => first_alnum(line@) is Some && alnum_offset(line@) == o,
            None => first_alnum(line@) is None || alnum_offset(line@) > usize::MAX,
        },
{
    let n = line.len();
    let mut k: usize = 0;
    let mut offset: u128 = 0;
    assert(line@.take(0) =~= Seq::<char>::empty());
    while k < n && !is_alphanumeric(line[k])
        invariant
            k <= n,
            n == line@.len(),
            forall|q: int| 0 <= q < k ==> !spec_is_alphanumeric(line@[q]),
            offset == utf8_len(line@.take(k as int)),
            offset <= 4 * k,
        decreases n - k,
    {
        proof {
            lemma_utf8_len_push(line@, k as int);
        }
        offset = offset + char_width_exec(line[k]) as u128;
        k = k + 1;
    }
    proof {
        lemma_first_alnum(line@);
    }
    if k == n {
        return None;
    }
    assert(first_alnum(line@) == Some(k as int));
    if offset > usize::MAX as u128 {
        return None;
    }
    Some(offset as usize)
}

/// Whether reading the description of a script can go ahead; see
/// `description_readable`.
pub fn description_is_readable(contents: &str) -> (r: bool)
    ensures
        r == description_readable(contents@),
{
    let comment = comment_lines_exec(contents);
    let ghost cl = views(comment@);
    let mut shortest: usize = usize::MAX;
    let mut j: usize = 0;
    assert(cl.take(0) =~= Seq::<Seq<char>>::empty());
    while j < comment.len()
        invariant
            cl == views(comment@),
            cl == comment_lines(lines(contents@)),
            j <= cl.len(),
            shortest == min_offset(cl.take(j as int)),
            forall|q: int|
                0 <= q < j ==> #[trigger] first_alnum(cl[q]) is Some && alnum_offset(cl[q])
                    <= usize::MAX,
        decreases cl.len() - j,
    {
        assert(comment@[j as int]@ == cl[j as int]);
        match alnum_offset_exec(&comment[j]) {
            None => {
                assert(!(first_alnum(cl[j as int]) is Some && alnum_offset(cl[j as int])
                    <= usize::MAX));
                return false;
            },
            Some(o) => {
                assert(cl.take(j + 1).drop_last() =~= cl.take(j as int));
                assert(cl.take(j + 1).last() == cl[j as int]);
                if o < shortest {
                    shortest = o;
                }
            },
        }
        j = j + 1;
    }
    assert(cl.take(cl.len() as int) =~= cl);
    let mut j: usize = 0;
    while j < comment.len()
        invariant
            cl == views(comment@),
            cl == comment_lines(lines(contents@)),
            j <= cl.len(),
            shortest == min_offset(cl),
            forall|q: int|
                0 <= q < cl.len() ==> #[trigger] first_alnum(cl[q]) is Some && alnum_offset(
                    cl[q],
                ) <= usize::MAX,
            forall|q: int|
                0 <= q < j ==> byte_boundary_index(#[trigger] cl[q], min_offset(cl)) is Some,
        decreases cl.len() - j,
    {
        assert(comment@[j as int]@ == cl[j as int]);
        if !crate::text::on_char_boundary(comment[j].as_slice(), shortest) {
            assert(first_alnum(cl[j as int]) is Some);
            return false;
        }
        j = j + 1;
    }
    assert forall|i: int| 0 <= i < cl.len() implies {
        &&& #[trigger] first_alnum(cl[i]) is Some
        &&& alnum_offset(cl[i]) <= usize::MAX
        &&& byte_boundary_index(cl[i], min_offset(cl)) is Some
    } by {}
    true
}

/// The description of a script when it can be read: `None` when a comment
/// line has no alphanumeric character or the common indentation does not
/// end on a character boundary of every comment line, where reading it
/// fails.
pub fn try_parse_lune_description_from_file(contents: &str) -> (r: Option<Option<String>>)
    ensures
        r is None <==> !description_readable(contents@),
        r matches Some(d) ==> match d {
            Some(s) => spec_description(contents@) == Some(s@),
            None => spec_description(contents@) is None,
        },
{
    if description_is_readable(contents) {
        Some(parse_lune_description_from_file(contents))
    } else {
        None
    }
}

/// Reads the description of a script from its leading `-->` comment lines.
pub fn parse_lune_description_from_file(contents: &str) -> (r: Option<String>)
    requires
        description_readable(contents@),
    ensures
        match r {
            Some(s) => spec_description(contents@) == Some(s@),
            None => spec_description(contents@) is None,
        },
{
    let comment = comment_lines_exec(contents);
    let ghost cl = views(comment@);
    assert(cl == comment_lines(lines(contents@)));
    if comment.len() == 0 {
        return None;
    }
    // The smallest byte offset of a first alphanumeric character.

    let mut shortest: usize = usize::MAX;
    let mut j: usize = 0;
    assert(cl.take(0) =~= seq![]);
    while j < comment.len()
        invariant
            cl == views(comment@),
            description_readable(contents@),
            cl == comment_lines(lines(contents@)),
            j <= cl.len(),
            shortest == min_offset(cl.take(j as int)),
        decreases cl.len() - j,
    {
        let line = &comment[j];
        assert(line@ == cl[j as int]);
        assert(first_alnum(cl[j as int]) is Some);
        proof {
            lemma_first_alnum(line@);
        }
        let ghost fa = first_alnum(line@).unwrap();
        let ll = line.len();
        let mut k: usize = 0;
        let mut offset: usize = 0;
        assert(line@.take(0) =~= seq![]);
        while !is_alphanumeric(line[k])
            invariant
                0 <= k <= fa < line@.len(),
                ll == line@.len(),
                first_alnum(line@) == Some(fa),
                forall|q: int| 0 <= q < fa ==> !spec_is_alphanumeric(line@[q]),
                spec_is_alphanumeric(line@[fa]),
                offset == utf8_len(line@.take(k as int)),
                utf8_len(line@.take(fa)) <= usize::MAX,
            decreases fa - k,
        {
            proof {
                lemma_utf8_len_push(line@, k as int);
                if k + 1 < fa {
                    lemma_utf8_len_strict(line@, k + 1, fa);
                }
            }
            offset = offset + char_width_exec(line[k]);
            k = k + 1;
        }
        assert(k == fa);
        assert(cl.take(j + 1).drop_last() =~= cl.take(j as int));
        if offset < shortest {
            shortest = offset;
        }
        j = j + 1;
    }
    assert(cl.take(cl.len() as int) =~= cl);
    // Each line without the common indentation.

    let mut unindented: Vec<Vec<char>> = Vec::new();
    let mut j: usize = 0;
    while j < comment.len()
        invariant
            cl == views(comment@),
            description_readable(contents@),
            cl == comment_lines(lines(contents@)),
            shortest == min_offset(cl),
            j <= cl.len(),
            views(unindented@) == unindent(cl, shortest as int).take(j as int),
        decreases cl.len() - j,
    {
        let line = &comment[j];
        assert(line@ == cl[j as int]);
        assert(first_alnum(cl[j as int]) is Some);
        assert(byte_boundary_index(cl[j as int], min_offset(cl)) is Some);
        let ghost b = byte_boundary_index(line@, shortest as int).unwrap();
        proof {
            lemma_byte_boundary_sound(line@, shortest as int);
        }
        let ll = line.len();
        let mut k: usize = 0;
        let mut acc: usize = 0;
        assert(line@.take(0) =~= seq![]);
        while acc < shortest
            invariant
                0 <= k <= b <= line@.len(),
                ll == line@.len(),
                acc == utf8_len(line@.take(k as int)),
                utf8_len(line@.take(b)) == shortest,
            decreases b - k,
        {
            proof {
                if k == b {
                    assert(false);
                }
                lemma_utf8_len_push(line@, k as int);
                if k + 1 < b {
                    lemma_utf8_len_strict(line@, k + 1, b);
                }
            }
            acc = acc + char_width_exec(line[k]);
            k = k + 1;
        }
        proof {
            if k < b {
                lemma_utf8_len_strict(line@, k as int, b);
            }
        }
        assert(k == b);
        let piece = sub_chars(line.as_slice(), k, line.len());
        assert(piece@ =~= line@.skip(b));
        let ghost before = views(unindented@);
        unindented.push(piece);
        assert(views(unindented@) =~= before.push(piece@));
        assert(unindent(cl, shortest as int).take(j + 1) =~= unindent(
            cl,
            shortest as int,
        ).take(j as int).push(piece@));
        j = j + 1;
    }
    assert(unindent(cl, shortest as int).take(cl.len() as int) =~= unindent(cl, shortest as int));
    let sep = str_chars(" ");
    let joined = join_chars(&unindented, sep.as_slice());
    Some(chars_to_string(joined.as_slice()))
}

// ---------------------------------------------------------------------
// Script discovery

/// The next step of script discovery, decided from what the file system
/// reports about a candidate path.
#[derive(Debug, Clone, Copy, PartialEq, Eq, Structural)]
pub enum ScriptPathDecision {
    /// The path is the script.
    Found,
    /// A file was found, with an extension other than `lua` or `luau`.
    WrongExtension,
    /// A file was found, with no extension.
    NoExtension,
    /// A directory was found: look for its `init.luau`, then `init.lua`.
    TryInitFiles,
    /// Nothing was found and the path has no extension: look for the path
    /// with a `lua`, then a `luau` extension.
    TryLuaExtensions,
    /// Nothing was found.
    NotFound,
}

/// What script discovery does for a candidate path.
pub open spec fn spec_decide_script_path(
    is_file: bool,
    is_dir: bool,
    is_absolute: bool,
    in_home_dir: bool,
    extension: Option<Seq<char>>,
) -> ScriptPathDecision {
    if is_file {
        if is_absolute {
            ScriptPathDecision::Found
        } else {
            match extension {
                Some(e) => if e == "lua"@ || e == "luau"@ {
                    ScriptPathDecision::Found
                } else {
                    ScriptPathDecision::WrongExtension
                },
                None => ScriptPathDecision::NoExtension,
            }
        }
    } else if is_dir {
        ScriptPathDecision::TryInitFiles
    } else if is_absolute && !in_home_dir {
        ScriptPathDecision::NotFound
    } else if extension is None {
        ScriptPathDecision::TryLuaExtensions
    } else {
        ScriptPathDecision::NotFound
    }
}

/// A script given by a relative path that is a file is found exactly when
/// its extension is `lua` or `luau`, wherever it is looked up; with any
/// other extension, or none, the user is told what is wrong with it. A file
/// given by an absolute path is found whatever its extension.
pub proof fn lemma_script_file_extensions(in_home_dir: bool, extension: Option<Seq<char>>)
    ensures
        spec_decide_script_path(true, false, false, in_home_dir, Some("lua"@))
            == ScriptPathDecision::Found,
        spec_decide_script_path(true, false, false, in_home_dir, Some("luau"@))
            == ScriptPathDecision::Found,
        extension matches Some(e) && e != "lua"@ && e != "luau"@ ==> spec_decide_script_path(
            true,
            false,
            false,
            in_home_dir,
            extension,
        ) == ScriptPathDecision::WrongExtension,
        spec_decide_script_path(true, false, false, in_home_dir, None)
            == ScriptPathDecision::NoExtension,
        spec_decide_script_path(true, false, true, in_home_dir, extension)
            == ScriptPathDecision::Found,
{
}

/// A path that is not a file is looked into when it is a directory; when
/// nothing is there, an absolute path outside the home directory is not
/// found, and any other path is tried with the script extensions exactly
/// when it has none.
pub proof fn lemma_script_path_not_a_file(
    is_absolute: bool,
    in_home_dir: bool,
    extension: Option<Seq<char>>,
)
    ensures
        spec_decide_script_path(false, true, is_absolute, in_home_dir, extension)
            == ScriptPathDecision::TryInitFiles,
        is_absolute && !in_home_dir ==> spec_decide_script_path(
            false,
            false,
            is_absolute,
            in_home_dir,
            extension,
        ) == ScriptPathDecision::NotFound,
        !(is_absolute && !in_home_dir) ==> spec_decide_script_path(
            false,
            false,
            is_absolute,
            in_home_dir,
            extension,
        ) == (if extension is None {
            ScriptPathDecision::TryLuaExtensions
        } else {
            ScriptPathDecision::NotFound
        }),
{
}

/// The view of an optional string slice.
pub open spec fn opt_view(o: Option<&str>) -> Option<Seq<char>> {
    match o {
        Some(s) => Some(s@),
        None => None,
    }
}

/// Decides the next step of script discovery for a candidate path from
/// whether it is a file, a directory, absolute, looked up in the home
/// directory, and its extension.
pub fn decide_script_path(
    is_file: bool,
    is_dir: bool,
    is_absolute: bool,
    in_home_dir: bool,
    extension: Option<&str>,
) -> (r: ScriptPathDecision)
    ensures
        r == spec_decide_script_path(is_file, is_dir, is_absolute, in_home_dir, opt_view(extension)),
{
    if is_file {
        if is_absolute {
            ScriptPathDecision::Found
        } else {
            match extension {
                Some(e) => {
                    let ev = str_chars(e);
                    if chars_eq_str(ev.as_slice(), "lua") || chars_eq_str(ev.as_slice(), "luau") {
                        ScriptPathDecision::Found
                    } else {
                        ScriptPathDecision::WrongExtension
                    }
                },
                None => ScriptPathDecision::NoExtension,
            }
        }
    } else if is_dir {
        ScriptPathDecision::TryInitFiles
    } else if is_absolute && !in_home_dir {
        ScriptPathDecision::NotFound
    } else if extension.is_none() {
        ScriptPathDecision::TryLuaExtensions
    } else {
        ScriptPathDecision::NotFound
    }
}

/// The paths of the init files of a directory, in the order they are
/// tried: `{path}/init.luau`, then `{path}/init.lua`.
pub fn init_file_candidates(path: &str) -> (r: (String, String))
    ensures
        r.0@ == path@ + "/init.luau"@,
        r.1@ == path@ + "/init.lua"@,
{
    let mut a = path.to_string();
    a.append("/init.luau");
    let mut b = path.to_string();
    b.append("/init.lua");
    (a, b)
}

/// What discovering a script in a directory gives, from what discovering
/// its `init.luau` and then its `init.lua` gave: the first that was found,
/// else the message that the directory has no init file.
pub fn init_file_result(
    luau: Result<String, String>,
    lua: Result<String, String>,
    missing: String,
) -> (r: Result<String, String>)
    ensures
        match (luau, lua) {
            (Ok(p), _) => r == Ok::<String, String>(p),
            (Err(_), Ok(p)) => r == Ok::<String, String>(p),
            (Err(_), Err(_)) => r == Err::<String, String>(missing),
        },
{
    match (luau, lua) {
        (Ok(p), _) => Ok(p),
        (Err(_), Ok(p)) => Ok(p),
        (Err(_), Err(_)) => Err(missing),
    }
}

/// What discovering a script at a path without an extension gives, from
/// the path with a `lua` extension and the path with a `luau` extension,
/// each given only where it is a file: the `lua` path first, then the
/// `luau` path, else the message that nothing was found.
pub fn extension_result(
    lua: Option<String>,
    luau: Option<String>,
    missing: String,
) -> (r: Result<String, String>)
    ensures
        match (lua, luau) {
            (Some(p), _) => r == Ok::<String, String>(p),
            (None, Some(p)) => r == Ok::<String, String>(p),
            (None, None) => r == Err::<String, String>(missing),
        },
{
    match (lua, luau) {
        (Some(p), _) => Ok(p),
        (None, Some(p)) => Ok(p),
        (None, None) => Err(missing),
    }
}

/// A place to look for a script that was not found directly.
#[derive(Debug, Clone)]
pub struct LuneDirCandidate {
    /// The path to try.
    pub path: String,
    /// Whether the path is looked up in the home directory.
    pub in_home_dir: bool,
}

/// The places tried, in order, when a relative script path was not found:
/// `lune/{path}` and `.lune/{path}`, first relative to the working directory,
/// then to the home directory.
pub fn lune_dir_candidates(path: &str, separator: char) -> (r: Vec<LuneDirCandidate>)
    ensures
        r@.len() == 4,
        r@[0].path@ == "lune"@.push(separator) + path@ && !r@[0].in_home_dir,
        r@[1].path@ == ".lune"@.push(separator) + path@ && !r@[1].in_home_dir,
        r@[2].path@ == "lune"@.push(separator) + path@ && r@[2].in_home_dir,
        r@[3].path@ == ".lune"@.push(separator) + path@ && r@[3].in_home_dir,
{
    let sep = chars_to_string([separator].as_slice());
    assert(sep@ =~= seq![separator]);
    let mut a = "lune".to_string();
    a.append(sep.as_str());
    a.append(path);
    let mut b = ".lune".to_string();
    b.append(sep.as_str());
    b.append(path);
    let c = a.clone();
    let d = b.clone();
    assert("lune"@ + seq![separator] =~= "lune"@.push(separator));
    assert(".lune"@ + seq![separator] =~= ".lune"@.push(separator));
    let mut r: Vec<LuneDirCandidate> = Vec::new();
    r.push(LuneDirCandidate { path: a, in_home_dir: false });
    r.push(LuneDirCandidate { path: b, in_home_dir: false });
    r.push(LuneDirCandidate { path: c, in_home_dir: true });
    r.push(LuneDirCandidate { path: d, in_home_dir: true });
    r
}

} // verus!
