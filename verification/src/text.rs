//! Character-level helpers shared by the parsers of this crate.
//!
//! Strings are handled as sequences of `char`; the spec functions here say
//! what the std string operations that the parsers rely on compute.

use vstd::prelude::*;
use vstd::utf8::{decode_utf8, valid_utf8};

verus! {

/// The Unicode `White_Space` property, as `char::is_whitespace` documents it.
pub open spec fn is_ws(c: char) -> bool {
    let u = c as u32;
    ||| 0x09 <= u && u <= 0x0D
    ||| u == 0x20
    ||| u == 0x85
    ||| u == 0xA0
    ||| u == 0x1680
    ||| 0x2000 <= u && u <= 0x200A
    ||| u == 0x2028
    ||| u == 0x2029
    ||| u == 0x202F
    ||| u == 0x205F
    ||| u == 0x3000
}

/// Executable form of [`is_ws`].
pub fn is_whitespace(c: char) -> (b: bool)
    ensures
        b == is_ws(c),
{
    let u = c as u32;
    (0x09 <= u && u <= 0x0D) || u == 0x20 || u == 0x85 || u == 0xA0 || u == 0x1680 || (0x2000
        <= u && u <= 0x200A) || u == 0x2028 || u == 0x2029 || u == 0x202F || u == 0x205F || u
        == 0x3000
}

/// ASCII lowercase of one character; other characters are unchanged.
pub open spec fn lower_char(c: char) -> char {
    if 'A' <= c && c <= 'Z' {
        ((c as u32) + 32) as char
    } else {
        c
    }
}

/// ASCII lowercase of a character sequence, as `str::to_ascii_lowercase`.
pub open spec fn ascii_lower(s: Seq<char>) -> Seq<char> {
    s.map_values(|c: char| lower_char(c))
}

/// ASCII uppercase of one character; other characters are unchanged.
pub open spec fn upper_char(c: char) -> char {
    if 'a' <= c && c <= 'z' {
        ((c as u32) - 32) as char
    } else {
        c
    }
}

/// ASCII uppercase of a character sequence, as `str::to_ascii_uppercase`.
pub open spec fn ascii_upper(s: Seq<char>) -> Seq<char> {
    s.map_values(|c: char| upper_char(c))
}

/// Leading whitespace removed, as `str::trim_start`.
pub open spec fn trim_start(s: Seq<char>) -> Seq<char>
    decreases s.len(),
{
    if s.len() > 0 && is_ws(s[0]) {
        trim_start(s.drop_first())
    } else {
        s
    }
}

/// Trailing whitespace removed, as `str::trim_end`.
pub open spec fn trim_end(s: Seq<char>) -> Seq<char>
    decreases s.len(),
{
    if s.len() > 0 && is_ws(s.last()) {
        trim_end(s.drop_last())
    } else {
        s
    }
}

/// Whitespace removed at both ends, as `str::trim`.
pub open spec fn trim(s: Seq<char>) -> Seq<char> {
    trim_end(trim_start(s))
}

/// The characters of a string slice.
pub fn str_chars(s: &str) -> (v: Vec<char>)
    ensures
        v@ == s@,
{
    let mut v: Vec<char> = Vec::new();
    for c in it: s.chars()
        invariant
            v@ == it.seq().take(it.index() as int),
            it.seq() == s@,
    {
        v.push(c);
    }
    v
}

/// Builds a `String` from its characters.
///
/// Trusted: the body collects the characters with `FromIterator<char>` of
/// `String`, whose documentation says the string holds those characters in
/// that order.
#[verifier::external_body]
pub(crate) fn chars_to_string(v: &[char]) -> (s: String)
    ensures
        s@ == v@,
{
    v.iter().collect()
}

/// Lowercase of one character, ASCII letters only.
pub fn to_lower_char(c: char) -> (r: char)
    ensures
        r == lower_char(c),
{
    if 'A' <= c && c <= 'Z' {
        let u = (c as u32) + 32;
        let b = u as u8;
        assert(b == u);
        b as char
    } else {
        c
    }
}

/// Uppercase of one character, ASCII letters only.
pub fn to_upper_char(c: char) -> (r: char)
    ensures
        r == upper_char(c),
{
    if 'a' <= c && c <= 'z' {
        let u = (c as u32) - 32;
        let b = u as u8;
        assert(b == u);
        b as char
    } else {
        c
    }
}

/// ASCII lowercase of a character sequence.
pub fn to_ascii_lower(s: &[char]) -> (r: Vec<char>)
    ensures
        r@ == ascii_lower(s@),
{
    let mut r: Vec<char> = Vec::new();
    let mut i: usize = 0;
    while i < s.len()
        invariant
            i <= s@.len(),
            r@ == ascii_lower(s@.take(i as int)),
        decreases s@.len() - i,
    {
        r.push(to_lower_char(s[i]));
        assert(ascii_lower(s@.take(i + 1)) =~= ascii_lower(s@.take(i as int)).push(
            lower_char(s@[i as int]),
        ));
        i = i + 1;
    }
    assert(s@.take(s@.len() as int) =~= s@);
    r
}

/// ASCII uppercase of a character sequence.
pub fn to_ascii_upper(s: &[char]) -> (r: Vec<char>)
    ensures
        r@ == ascii_upper(s@),
{
    let mut r: Vec<char> = Vec::new();
    let mut i: usize = 0;
    while i < s.len()
        invariant
            i <= s@.len(),
            r@ == ascii_upper(s@.take(i as int)),
        decreases s@.len() - i,
    {
        r.push(to_upper_char(s[i]));
        assert(ascii_upper(s@.take(i + 1)) =~= ascii_upper(s@.take(i as int)).push(
            upper_char(s@[i as int]),
        ));
        i = i + 1;
    }
    assert(s@.take(s@.len() as int) =~= s@);
    r
}

/// The characters of `s` from index `from` up to `to`.
pub fn sub_chars(s: &[char], from: usize, to: usize) -> (r: Vec<char>)
    requires
        from <= to <= s@.len(),
    ensures
        r@ == s@.subrange(from as int, to as int),
{
    let mut r: Vec<char> = Vec::new();
    let mut i: usize = from;
    while i < to
        invariant
            from <= i <= to <= s@.len(),
            r@ == s@.subrange(from as int, i as int),
        decreases to - i,
    {
        r.push(s[i]);
        assert(s@.subrange(from as int, i + 1) =~= s@.subrange(from as int, i as int).push(
            s@[i as int],
        ));
        i = i + 1;
    }
    r
}

proof fn lemma_trim_start_skip(s: Seq<char>, i: int)
    requires
        0 <= i < s.len(),
        is_ws(s[i]),
    ensures
        trim_start(s.skip(i)) == trim_start(s.skip(i + 1)),
{
    assert(s.skip(i).drop_first() =~= s.skip(i + 1));
}

proof fn lemma_trim_end_take(s: Seq<char>, j: int)
    requires
        0 < j <= s.len(),
        is_ws(s[j - 1]),
    ensures
        trim_end(s.take(j)) == trim_end(s.take(j - 1)),
{
    assert(s.take(j).drop_last() =~= s.take(j - 1));
}

/// Whitespace removed at both ends.
pub fn trim_chars(s: &[char]) -> (r: Vec<char>)
    ensures
        r@ == trim(s@),
{
    let mut i: usize = 0;
    assert(s@.skip(0) =~= s@);
    while i < s.len() && is_whitespace(s[i])
        invariant
            i <= s@.len(),
            trim_start(s@) == trim_start(s@.skip(i as int)),
        decreases s@.len() - i,
    {
        proof {
            lemma_trim_start_skip(s@, i as int);
        }
        i = i + 1;
    }
    let ghost t = s@.skip(i as int);
    assert(trim_start(s@) == t);
    let mut j: usize = s.len();
    assert(t.take(t.len() as int) =~= t);
    while j > i && is_whitespace(s[j - 1])
        invariant
            i <= j <= s@.len(),
            t == s@.skip(i as int),
            trim_end(t) == trim_end(t.take(j - i)),
        decreases j,
    {
        proof {
            lemma_trim_end_take(t, j - i);
        }
        j = j - 1;
    }
    assert(t.take(j - i) =~= s@.subrange(i as int, j as int));
    sub_chars(s, i, j)
}

/// Whether a character sequence equals the characters of a string slice.
pub fn chars_eq_str(a: &[char], b: &str) -> (r: bool)
    ensures
        r == (a@ == b@),
{
    let bv = str_chars(b);
    chars_eq(a, bv.as_slice())
}

/// Whether two character sequences are equal.
pub fn chars_eq(a: &[char], b: &[char]) -> (r: bool)
    ensures
        r == (a@ == b@),
{
    if a.len() != b.len() {
        return false;
    }
    let mut i: usize = 0;
    while i < a.len()
        invariant
            a@.len() == b@.len(),
            i <= a@.len(),
            forall|k: int| 0 <= k < i ==> a@[k] == b@[k],
        decreases a@.len() - i,
    {
        if a[i] != b[i] {
            return false;
        }
        i = i + 1;
    }
    assert(a@ =~= b@);
    true
}

/// The index of the first occurrence of `c` in `s`.
pub open spec fn find_char(s: Seq<char>, c: char) -> Option<int>
    decreases s.len(),
{
    if s.len() == 0 {
        None
    } else if s[0] == c {
        Some(0)
    } else {
        match find_char(s.drop_first(), c) {
            Some(i) => Some(i + 1),
            None => None,
        }
    }
}

/// Where `find_char` finds a character, the character is there.
pub proof fn lemma_find_char(s: Seq<char>, c: char)
    ensures
        match find_char(s, c) {
            Some(i) => 0 <= i < s.len() && s[i] == c && forall|k: int| 0 <= k < i ==> s[k] != c,
            None => forall|k: int| 0 <= k < s.len() ==> s[k] != c,
        },
    decreases s.len(),
{
    if s.len() > 0 && s[0] != c {
        lemma_find_char(s.drop_first(), c);
        assert forall|k: int| 1 <= k < s.len() implies s[k] == s.drop_first()[k - 1] by {}
    }
}

/// The index of the first occurrence of `c` in `s`.
pub fn find_char_exec(s: &[char], c: char) -> (r: Option<usize>)
    ensures
        match find_char(s@, c) {
            Some(i) => r == Some(i as usize) && 0 <= i < s@.len(),
            None => r is None,
        },
        r matches Some(k) ==> k < s@.len(),
{
    proof {
        lemma_find_char(s@, c);
    }
    let mut i: usize = 0;
    assert(s@.skip(0) =~= s@);
    while i < s.len()
        invariant
            i <= s@.len(),
            find_char(s@, c) == (match find_char(s@.skip(i as int), c) {
                Some(k) => Some(k + i),
                None => None::<int>,
            }),
        decreases s@.len() - i,
    {
        assert(s@.skip(i as int).drop_first() =~= s@.skip(i + 1));
        if s[i] == c {
            return Some(i);
        }
        i = i + 1;
    }
    None
}


/// A line with one trailing carriage return dropped.
pub open spec fn strip_cr(l: Seq<char>) -> Seq<char> {
    if l.len() > 0 && l.last() == '\r' {
        l.drop_last()
    } else {
        l
    }
}

/// The lines of a text, as `str::lines`: split after each `\n`, a `\r`
/// right before a `\n` dropped, and no empty line after a final `\n`.
pub open spec fn lines(s: Seq<char>) -> Seq<Seq<char>>
    decreases s.len(),
{
    if s.len() == 0 {
        seq![]
    } else {
        match find_char(s, '\n') {
            Some(i) => if 0 <= i < s.len() {
                seq![strip_cr(s.take(i))] + lines(s.skip(i + 1))
            } else {
                seq![]
            },
            None => seq![s],
        }
    }
}

/// The pieces of a sequence joined with a separator in between.
pub open spec fn join(ls: Seq<Seq<char>>, sep: Seq<char>) -> Seq<char>
    decreases ls.len(),
{
    if ls.len() == 0 {
        seq![]
    } else if ls.len() == 1 {
        ls[0]
    } else {
        join(ls.drop_last(), sep) + sep + ls.last()
    }
}

/// The number of bytes of a character in UTF-8.
pub open spec fn char_width(c: char) -> int {
    let u = c as u32;
    if u < 0x80 {
        1
    } else if u < 0x800 {
        2
    } else if u < 0x10000 {
        3
    } else {
        4
    }
}

/// The number of bytes of a character sequence in UTF-8.
pub open spec fn utf8_len(s: Seq<char>) -> int
    decreases s.len(),
{
    if s.len() == 0 {
        0
    } else {
        utf8_len(s.drop_last()) + char_width(s.last())
    }
}

/// The character index at which `k` bytes of `s` end, if `k` falls on a
/// character boundary.
pub open spec fn byte_boundary_index(s: Seq<char>, k: int) -> Option<int>
    decreases s.len(),
{
    if k == 0 {
        Some(0)
    } else if s.len() == 0 || k < 0 {
        None
    } else if char_width(s[0]) <= k {
        match byte_boundary_index(s.drop_first(), k - char_width(s[0])) {
            Some(j) => Some(j + 1),
            None => None,
        }
    } else {
        None
    }
}

/// The number of UTF-8 bytes of a character.
pub fn char_width_exec(c: char) -> (w: usize)
    ensures
        w == char_width(c),
{
    let u = c as u32;
    if u < 0x80 {
        1
    } else if u < 0x800 {
        2
    } else if u < 0x10000 {
        3
    } else {
        4
    }
}

/// Where the characters before index `i` end, counted in bytes.
pub proof fn lemma_utf8_len_push(s: Seq<char>, i: int)
    requires
        0 <= i < s.len(),
    ensures
        utf8_len(s.take(i + 1)) == utf8_len(s.take(i)) + char_width(s[i]),
{
    assert(s.take(i + 1).drop_last() =~= s.take(i));
}

/// The byte length of a prefix, counted from the front.
pub proof fn lemma_utf8_len_front(s: Seq<char>)
    requires
        s.len() > 0,
    ensures
        utf8_len(s) == char_width(s[0]) + utf8_len(s.drop_first()),
    decreases s.len(),
{
    if s.len() == 1 {
        assert(s.drop_last() =~= seq![]);
        assert(s.drop_first() =~= seq![]);
    } else {
        lemma_utf8_len_front(s.drop_last());
        assert(s.drop_last().drop_first() =~= s.drop_first().drop_last());
    }
}

/// The boundary at the end of a prefix is found at that prefix's length.
pub proof fn lemma_byte_boundary_of_prefix(s: Seq<char>, j: int)
    requires
        0 <= j <= s.len(),
    ensures
        byte_boundary_index(s, utf8_len(s.take(j))) == Some(j),
    decreases j,
{
    if j > 0 {
        lemma_utf8_len_front(s.take(j));
        assert(s.take(j).drop_first() =~= s.drop_first().take(j - 1));
        lemma_byte_boundary_of_prefix(s.drop_first(), j - 1);
        lemma_utf8_len_nonneg(s.drop_first().take(j - 1));
    } else {
        assert(s.take(0) =~= seq![]);
    }
}

/// Byte lengths are never negative.
pub proof fn lemma_utf8_len_nonneg(s: Seq<char>)
    ensures
        utf8_len(s) >= 0,
    decreases s.len(),
{
    if s.len() > 0 {
        lemma_utf8_len_nonneg(s.drop_last());
    }
}

/// A boundary found at a byte count is where the prefix has that many bytes.
pub proof fn lemma_byte_boundary_sound(s: Seq<char>, k: int)
    requires
        byte_boundary_index(s, k) is Some,
    ensures
        0 <= byte_boundary_index(s, k).unwrap() <= s.len(),
        utf8_len(s.take(byte_boundary_index(s, k).unwrap())) == k,
    decreases s.len(),
{
    if k == 0 {
        assert(s.take(0) =~= seq![]);
    } else {
        let j = byte_boundary_index(s.drop_first(), k - char_width(s[0])).unwrap();
        lemma_byte_boundary_sound(s.drop_first(), k - char_width(s[0]));
        lemma_utf8_len_front(s.take(j + 1));
        assert(s.take(j + 1).drop_first() =~= s.drop_first().take(j));
    }
}

/// The character sequences of a vector of character vectors.
pub open spec fn views(v: Seq<Vec<char>>) -> Seq<Seq<char>> {
    v.map_values(|l: Vec<char>| l@)
}

/// The lines of a text, as `str::lines`.
pub fn lines_of(s: &[char]) -> (r: Vec<Vec<char>>)
    ensures
        views(r@) == lines(s@),
{
    let n = s.len();
    let mut r: Vec<Vec<char>> = Vec::new();
    let mut start: usize = 0;
    let mut i: usize = 0;
    assert(s@.skip(0) =~= s@);
    while i < n
        invariant
            n == s@.len(),
            start <= i <= n,
            lines(s@) == views(r@) + lines(s@.skip(start as int)),
            forall|k: int| start <= k < i ==> s@[k] != '\n',
        decreases n - i,
    {
        if s[i] == '\n' {
            let ghost rest = s@.skip(start as int);
            proof {
                lemma_find_char(rest, '\n');
                assert(rest[i - start] == '\n');
                assert forall|k: int| 0 <= k < i - start implies rest[k] != '\n' by {
                    assert(rest[k] == s@[start + k]);
                }
                assert(find_char(rest, '\n') == Some((i - start) as int));
                assert(rest.take(i - start) =~= s@.subrange(start as int, i as int));
                assert(rest.skip(i - start + 1) =~= s@.skip(i + 1));
            }
            let mut line = sub_chars(s, start, i);
            let ll = line.len();
            if ll > 0 && line[ll - 1] == '\r' {
                line.pop();
            }
            assert(line@ == strip_cr(s@.subrange(start as int, i as int)));
            let ghost old_r = views(r@);
            r.push(line);
            assert(views(r@) =~= old_r.push(line@));
            assert(lines(rest) == seq![strip_cr(rest.take(i - start))] + lines(
                rest.skip(i - start + 1),
            ));
            assert(lines(s@) =~= views(r@) + lines(s@.skip(i + 1)));
            start = i + 1;
        }
        i = i + 1;
    }
    if start < n {
        let ghost rest = s@.skip(start as int);
        proof {
            lemma_find_char(rest, '\n');
            assert forall|k: int| 0 <= k < rest.len() implies rest[k] != '\n' by {
                assert(rest[k] == s@[start + k]);
            }
            assert(find_char(rest, '\n') is None);
            assert(rest =~= s@.subrange(start as int, n as int));
        }
        let line = sub_chars(s, start, n);
        let ghost old_r = views(r@);
        r.push(line);
        assert(views(r@) =~= old_r.push(line@));
        assert(lines(s@) =~= views(r@));
    } else {
        assert(s@.skip(start as int) =~= seq![]);
        assert(lines(s@) =~= views(r@));
    }
    r
}

/// The pieces joined with a separator in between.
pub fn join_chars(ls: &Vec<Vec<char>>, sep: &[char]) -> (r: Vec<char>)
    ensures
        r@ == join(views(ls@), sep@),
{
    let mut r: Vec<char> = Vec::new();
    let mut i: usize = 0;
    while i < ls.len()
        invariant
            i <= ls@.len(),
            r@ == join(views(ls@).take(i as int), sep@),
        decreases ls@.len() - i,
    {
        let ghost prev = views(ls@).take(i as int);
        if i > 0 {
            let mut k: usize = 0;
            let ghost r0 = r@;
            while k < sep.len()
                invariant
                    k <= sep@.len(),
                    r@ == r0 + sep@.take(k as int),
                decreases sep@.len() - k,
            {
                r.push(sep[k]);
                assert(sep@.take(k + 1) =~= sep@.take(k as int).push(sep@[k as int]));
                k = k + 1;
            }
            assert(sep@.take(k as int) =~= sep@);
        }
        let piece = &ls[i];
        let mut k: usize = 0;
        let ghost r1 = r@;
        while k < piece.len()
            invariant
                k <= piece@.len(),
                r@ == r1 + piece@.take(k as int),
            decreases piece@.len() - k,
        {
            r.push(piece[k]);
            assert(piece@.take(k + 1) =~= piece@.take(k as int).push(piece@[k as int]));
            k = k + 1;
        }
        assert(piece@.take(k as int) =~= piece@);
        assert(views(ls@).take(i + 1).drop_last() =~= prev);
        assert(views(ls@)[i as int] == piece@);
        if i == 0 {
            assert(views(ls@).take(1) =~= seq![piece@]);
        }
        i = i + 1;
    }
    assert(views(ls@).take(ls@.len() as int) =~= views(ls@));
    r
}

/// Whether `char::is_alphanumeric` holds of a character.
pub uninterp spec fn spec_is_alphanumeric(c: char) -> bool;

/// Whether `char::is_alphabetic` holds of a character.
pub uninterp spec fn spec_is_alphabetic(c: char) -> bool;

/// Whether a character is an ASCII letter or digit.
pub open spec fn is_ascii_alnum(c: char) -> bool {
    ('a' <= c && c <= 'z') || ('A' <= c && c <= 'Z') || ('0' <= c && c <= '9')
}

/// Whether a character is an ASCII letter.
pub open spec fn is_ascii_alpha(c: char) -> bool {
    ('a' <= c && c <= 'z') || ('A' <= c && c <= 'Z')
}

/// Whether a character is alphabetic or numeric.
///
/// Trusted: calls `char::is_alphanumeric`, which depends on the character
/// alone (the Unicode `Alphabetic` property or general category `N*`), and is
/// named by `spec_is_alphanumeric`. Among ASCII characters these are exactly
/// the letters and digits, as the Unicode tables that std documents give.
#[verifier::external_body]
pub(crate) fn is_alphanumeric(c: char) -> (b: bool)
    ensures
        b == spec_is_alphanumeric(c),
        (c as u32) < 128 ==> (b == is_ascii_alnum(c)),
{
    c.is_alphanumeric()
}

/// Whether a character is alphabetic.
///
/// Trusted: calls `char::is_alphabetic`, which depends on the character
/// alone (the Unicode `Alphabetic` property), and is named by
/// `spec_is_alphabetic`. Among ASCII characters these are exactly the
/// letters.
#[verifier::external_body]
pub(crate) fn is_alphabetic(c: char) -> (b: bool)
    ensures
        b == spec_is_alphabetic(c),
        (c as u32) < 128 ==> (b == is_ascii_alpha(c)),
{
    c.is_alphabetic()
}

/// Byte lengths grow strictly with the prefix.
pub proof fn lemma_utf8_len_strict(s: Seq<char>, k: int, j: int)
    requires
        0 <= k < j <= s.len(),
    ensures
        utf8_len(s.take(k)) < utf8_len(s.take(j)),
    decreases j - k,
{
    lemma_utf8_len_push(s, j - 1);
    if k < j - 1 {
        lemma_utf8_len_strict(s, k, j - 1);
    }
}

/// Whether the first `m` bytes of a line end on a character boundary.
pub fn on_char_boundary(line: &[char], m: usize) -> (r: bool)
    ensures
        r == (byte_boundary_index(line@, m as int) is Some),
{
    let n = line.len();
    let mut k: usize = 0;
    let mut acc: u128 = 0;
    assert(line@.take(0) =~= Seq::<char>::empty());
    while k < n && acc < m as u128
        invariant
            k <= n,
            n == line@.len(),
            acc == utf8_len(line@.take(k as int)),
            acc <= 4 * k,
            forall|j: int| 0 <= j < k ==> utf8_len(#[trigger] line@.take(j)) < m,
        decreases n - k,
    {
        proof {
            lemma_utf8_len_push(line@, k as int);
        }
        acc = acc + char_width_exec(line[k]) as u128;
        k = k + 1;
    }
    if acc == m as u128 {
        proof {
            lemma_byte_boundary_of_prefix(line@, k as int);
        }
        true
    } else {
        proof {
            if byte_boundary_index(line@, m as int) is Some {
                let j0 = byte_boundary_index(line@, m as int).unwrap();
                lemma_byte_boundary_sound(line@, m as int);
                if j0 > k {
                    lemma_utf8_len_strict(line@, k as int, j0);
                }
                assert(utf8_len(line@.take(j0)) == m);
            }
        }
        false
    }
}

/// Whether `p` is a prefix of `s`.
pub fn starts_with_chars(s: &[char], p: &str) -> (r: bool)
    ensures
        r == p@.is_prefix_of(s@),
{
    let pv = str_chars(p);
    if pv.len() > s.len() {
        return false;
    }
    let mut i: usize = 0;
    while i < pv.len()
        invariant
            pv@ == p@,
            pv@.len() <= s@.len(),
            i <= pv@.len(),
            forall|k: int| 0 <= k < i ==> pv@[k] == s@[k],
        decreases pv@.len() - i,
    {
        if pv[i] != s[i] {
            return false;
        }
        i = i + 1;
    }
    true
}

/// Whether one character sequence orders strictly before another: the
/// lexicographic order of code points, which is the order of `str` (the
/// byte order of UTF-8 keeps the order of code points).
pub open spec fn chars_lt(a: Seq<char>, b: Seq<char>) -> bool
    decreases a.len(),
{
    if b.len() == 0 {
        false
    } else if a.len() == 0 {
        true
    } else if (a[0] as u32) < (b[0] as u32) {
        true
    } else if (a[0] as u32) > (b[0] as u32) {
        false
    } else {
        chars_lt(a.drop_first(), b.drop_first())
    }
}

/// Whether one character sequence orders strictly before another.
pub fn chars_lt_exec(a: &[char], b: &[char]) -> (r: bool)
    ensures
        r == chars_lt(a@, b@),
{
    let mut i: usize = 0;
    assert(a@.skip(0) =~= a@);
    assert(b@.skip(0) =~= b@);
    while i < a.len() && i < b.len()
        invariant
            i <= a@.len(),
            i <= b@.len(),
            chars_lt(a@, b@) == chars_lt(a@.skip(i as int), b@.skip(i as int)),
        decreases a@.len() - i,
    {
        let x = a[i] as u32;
        let y = b[i] as u32;
        if x < y {
            return true;
        }
        if x > y {
            return false;
        }
        assert(a@.skip(i as int).drop_first() =~= a@.skip(i + 1));
        assert(b@.skip(i as int).drop_first() =~= b@.skip(i + 1));
        i = i + 1;
    }
    i < b.len()
}

/// The index of the first occurrence of `p` in `s`, as `str::find` with a
/// string pattern (an empty pattern is found at once).
pub open spec fn find_seq(s: Seq<char>, p: Seq<char>) -> Option<int>
    decreases s.len(),
{
    if p.is_prefix_of(s) {
        Some(0)
    } else if s.len() == 0 {
        None
    } else {
        match find_seq(s.drop_first(), p) {
            Some(i) => Some(i + 1),
            None => None,
        }
    }
}

/// Where `find_seq` finds a pattern, the pattern is there, and nowhere
/// before.
pub proof fn lemma_find_seq(s: Seq<char>, p: Seq<char>)
    ensures
        match find_seq(s, p) {
            Some(i) => 0 <= i && i + p.len() <= s.len() && s.subrange(i, i + p.len()) == p
                && forall|k: int| 0 <= k < i ==> !p.is_prefix_of(#[trigger] s.skip(k)),
            None => forall|k: int| 0 <= k <= s.len() ==> !p.is_prefix_of(#[trigger] s.skip(k)),
        },
    decreases s.len(),
{
    assert(s.skip(0) =~= s);
    if p.is_prefix_of(s) {
        assert(s.subrange(0, p.len() as int) =~= p);
    } else if s.len() == 0 {
    } else {
        let t = s.drop_first();
        lemma_find_seq(t, p);
        assert forall|k: int| 1 <= k <= s.len() implies s.skip(k) == t.skip(k - 1) by {
            assert(s.skip(k) =~= t.skip(k - 1));
        }
        match find_seq(t, p) {
            Some(i) => {
                assert(s.subrange(i + 1, i + 1 + p.len()) =~= t.subrange(i, i + p.len()));
            },
            None => {},
        }
    }
}

/// Whether `p` occurs in `s` at index `i`.
fn occurs_at(s: &[char], i: usize, p: &[char]) -> (r: bool)
    requires
        i <= s@.len(),
    ensures
        r == p@.is_prefix_of(s@.skip(i as int)),
{
    let n = s.len();
    if p.len() > n - i {
        return false;
    }
    let mut k: usize = 0;
    while k < p.len()
        invariant
            n == s@.len(),
            i <= s@.len(),
            i + p@.len() <= s@.len(),
            k <= p@.len(),
            forall|j: int| 0 <= j < k ==> p@[j] == s@[i + j],
        decreases p@.len() - k,
    {
        if p[k] != s[i + k] {
            assert(s@.skip(i as int)[k as int] == s@[i + k]);
            return false;
        }
        k = k + 1;
    }
    assert(p@ =~= s@.skip(i as int).subrange(0, p@.len() as int));
    true
}

/// The index of the first occurrence of `p` in `s`.
pub fn find_seq_exec(s: &[char], p: &str) -> (r: Option<usize>)
    ensures
        match find_seq(s@, p@) {
            Some(i) => r == Some(i as usize) && 0 <= i && i + p@.len() <= s@.len(),
            None => r is None,
        },
        r matches Some(k) ==> k + p@.len() <= s@.len(),
{
    proof {
        lemma_find_seq(s@, p@);
    }
    let pv = str_chars(p);
    let n = s.len();
    let mut i: usize = 0;
    assert(s@.skip(0) =~= s@);
    while i <= n
        invariant
            n == s@.len(),
            pv@ == p@,
            i <= n,
            find_seq(s@, p@) == (match find_seq(s@.skip(i as int), p@) {
                Some(k) => Some(k + i),
                None => None::<int>,
            }),
        decreases n - i,
    {
        if occurs_at(s, i, pv.as_slice()) {
            return Some(i);
        }
        if i == n {
            return None;
        }
        assert(s@.skip(i as int).drop_first() =~= s@.skip(i + 1));
        i = i + 1;
    }
    None
}

/// Appends characters to a string.
pub fn append_chars(buf: &mut String, c: &[char])
    ensures
        final(buf)@ == old(buf)@ + c@,
{
    let t = chars_to_string(c);
    buf.append(t.as_str());
}

/// Bytes read as UTF-8 text.
///
/// Trusted: calls `String::from_utf8`, which succeeds exactly on valid UTF-8
/// and then holds the characters that the bytes encode.
#[verifier::external_body]
pub(crate) fn string_from_utf8(data: Vec<u8>) -> (r: Option<String>)
    ensures
        r is Some <==> valid_utf8(data@),
        r matches Some(s) ==> s@ == decode_utf8(data@),
{
    String::from_utf8(data).ok()
}

/// What `String::from_utf8_lossy` gives for some bytes.
pub uninterp spec fn spec_utf8_lossy(data: Seq<u8>) -> Seq<char>;

/// Bytes read as UTF-8 text, each invalid sequence replaced by U+FFFD.
///
/// Trusted: calls `String::from_utf8_lossy`, whose result depends on the
/// bytes alone and is named by `spec_utf8_lossy`; on valid UTF-8 it holds
/// exactly the characters that the bytes encode.
#[verifier::external_body]
pub(crate) fn string_from_utf8_lossy(data: &[u8]) -> (r: String)
    ensures
        r@ == spec_utf8_lossy(data@),
        valid_utf8(data@) ==> r@ == decode_utf8(data@),
{
    String::from_utf8_lossy(data).into_owned()
}

/// Text that neither starts nor ends with whitespace is its own trim.
pub proof fn lemma_trim_no_ws(s: Seq<char>)
    requires
        forall|i: int| 0 <= i < s.len() ==> !is_ws(#[trigger] s[i]),
    ensures
        trim(s) == s,
{
    if s.len() > 0 {
        assert(!is_ws(s[0]));
        assert(!is_ws(s[s.len() - 1]));
    }
}

/// Text without ASCII uppercase letters is its own ASCII lowercase.
pub proof fn lemma_ascii_lower_of_lower(s: Seq<char>)
    requires
        forall|i: int| 0 <= i < s.len() ==> !('A' <= #[trigger] s[i] && s[i] <= 'Z'),
    ensures
        ascii_lower(s) == s,
{
    assert(ascii_lower(s) =~= s);
}

/// A word of lowercase ASCII letters and digits, uppercased and padded with
/// a space on each side, lowercases and trims back to itself.
pub proof fn lemma_padded_upper_lowered(n: Seq<char>)
    requires
        n.len() > 0,
        forall|i: int|
            0 <= i < n.len() ==> ('a' <= #[trigger] n[i] <= 'z' || '0' <= n[i] <= '9'),
    ensures
        trim(ascii_lower(" "@ + ascii_upper(n) + " "@)) == n,
{
    reveal_strlit(" ");
    let u = ascii_upper(n);
    let x = " "@ + u + " "@;
    assert forall|i: int| 0 <= i < n.len() implies #[trigger] lower_char(u[i]) == n[i] by {
        let c = n[i];
        assert(u[i] == upper_char(c));
        if 'a' <= c <= 'z' {
            assert(((((c as u32) - 32) as char) as u32 + 32) as char == c);
        }
    }
    let s = " "@ + n + " "@;
    assert(ascii_lower(x) =~= s);
    assert(s[0] == ' ');
    assert(s.drop_first() =~= n + " "@);
    assert(!is_ws(n[0]));
    assert((n + " "@)[0] == n[0]);
    assert(trim_start(n + " "@) == n + " "@);
    assert(trim_start(s) == n + " "@);
    assert((n + " "@).drop_last() =~= n);
    assert(!is_ws(n.last()));
    assert(trim_end(n) == n);
    assert(trim(s) == n);
}

} // verus!
