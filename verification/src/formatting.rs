//! How the runtime writes values, labels and errors to the terminal: ANSI
//! colors and styles, the pretty printing of Luau values, and the cleaned-up
//! text of Luau errors.

use vstd::prelude::*;

use crate::text::{
    spec_is_alphabetic, spec_is_alphanumeric, is_alphabetic, is_alphanumeric,
    ascii_lower, ascii_upper, str_chars, to_ascii_lower, to_ascii_upper, chars_eq_str,
    append_chars, trim, trim_chars, lines_of, join_chars, views, find_seq_exec, starts_with_chars,
    sub_chars, chars_to_string,
};
use vstd::utf8::encode_utf8;

verus! {

// ---------------------------------------------------------------------
// Colors and styles

/// The escape code that resets the color.
pub open spec fn color_reset() -> Seq<char> {
    "\x1B[0m"@
}

/// The escape code for black text.
pub open spec fn color_black() -> Seq<char> {
    "\x1B[30m"@
}

/// The escape code for red text.
pub open spec fn color_red() -> Seq<char> {
    "\x1B[31m"@
}

/// The escape code for green text.
pub open spec fn color_green() -> Seq<char> {
    "\x1B[32m"@
}

/// The escape code for yellow text.
pub open spec fn color_yellow() -> Seq<char> {
    "\x1B[33m"@
}

/// The escape code for blue text.
pub open spec fn color_blue() -> Seq<char> {
    "\x1B[34m"@
}

/// The escape code for purple text.
pub open spec fn color_purple() -> Seq<char> {
    "\x1B[35m"@
}

/// The escape code for cyan text.
pub open spec fn color_cyan() -> Seq<char> {
    "\x1B[36m"@
}

/// The escape code for white text.
pub open spec fn color_white() -> Seq<char> {
    "\x1B[37m"@
}

/// The escape code that resets the style.
pub open spec fn style_reset() -> Seq<char> {
    "\x1B[22m"@
}

/// The escape code for bold text.
pub open spec fn style_bold() -> Seq<char> {
    "\x1B[1m"@
}

/// The escape code for dim text.
pub open spec fn style_dim() -> Seq<char> {
    "\x1B[2m"@
}

/// The color of a label: blue for `info`, yellow for `warn`, red for
/// `error` (ignoring ASCII case), white otherwise.
pub open spec fn label_color(s: Seq<char>) -> Seq<char> {
    let l = ascii_lower(s);
    if l == "info"@ {
        color_blue()
    } else if l == "warn"@ {
        color_yellow()
    } else if l == "error"@ {
        color_red()
    } else {
        color_white()
    }
}

/// A label such as `[INFO] `: bold brackets around the uppercased name in
/// its color, and a space.
pub open spec fn spec_format_label(s: Seq<char>) -> Seq<char> {
    style_bold() + "["@ + label_color(s) + ascii_upper(s) + color_reset() + style_bold() + "]"@
        + style_reset() + " "@
}

/// The escape code of a style name, or the message for a name that is none.
pub open spec fn spec_style_code(s: Seq<char>) -> Result<Seq<char>, Seq<char>> {
    if s == "reset"@ {
        Ok(style_reset())
    } else if s == "bold"@ {
        Ok(style_bold())
    } else if s == "dim"@ {
        Ok(style_dim())
    } else {
        Err("The style '"@ + s + "' is not a valid style name"@)
    }
}

/// The escape code of a color name, or the message for a name that is none.
pub open spec fn spec_color_code(s: Seq<char>) -> Result<Seq<char>, Seq<char>> {
    if s == "reset"@ {
        Ok(color_reset())
    } else if s == "black"@ {
        Ok(color_black())
    } else if s == "red"@ {
        Ok(color_red())
    } else if s == "green"@ {
        Ok(color_green())
    } else if s == "yellow"@ {
        Ok(color_yellow())
    } else if s == "blue"@ {
        Ok(color_blue())
    } else if s == "purple"@ {
        Ok(color_purple())
    } else if s == "cyan"@ {
        Ok(color_cyan())
    } else if s == "white"@ {
        Ok(color_white())
    } else {
        Err("The color '"@ + s + "' is not a valid color name"@)
    }
}

/// The label for a kind of message, such as `[INFO] `.
pub fn format_label(s: &str) -> (r: String)
    ensures
        r@ == spec_format_label(s@),
{
    let chars = str_chars(s);
    let lower = to_ascii_lower(chars.as_slice());
    let upper = to_ascii_upper(chars.as_slice());
    let mut r = "\x1B[1m".to_string();
    r.append("[");
    if chars_eq_str(lower.as_slice(), "info") {
        r.append("\x1B[34m");
    } else if chars_eq_str(lower.as_slice(), "warn") {
        r.append("\x1B[33m");
    } else if chars_eq_str(lower.as_slice(), "error") {
        r.append("\x1B[31m");
    } else {
        r.append("\x1B[37m");
    }
    append_chars(&mut r, upper.as_slice());
    r.append("\x1B[0m");
    r.append("\x1B[1m");
    r.append("]");
    r.append("\x1B[22m");
    r.append(" ");
    r
}

/// The escape code of a style: `reset`, `bold` or `dim`.
pub fn style_code(s: &str) -> (r: Result<String, String>)
    ensures
        match r {
            Ok(c) => spec_style_code(s@) == Ok::<Seq<char>, Seq<char>>(c@),
            Err(m) => spec_style_code(s@) == Err::<Seq<char>, Seq<char>>(m@),
        },
{
    let chars = str_chars(s);
    if chars_eq_str(chars.as_slice(), "reset") {
        Ok("\x1B[22m".to_string())
    } else if chars_eq_str(chars.as_slice(), "bold") {
        Ok("\x1B[1m".to_string())
    } else if chars_eq_str(chars.as_slice(), "dim") {
        Ok("\x1B[2m".to_string())
    } else {
        let mut m = "The style '".to_string();
        m.append(s);
        m.append("' is not a valid style name");
        Err(m)
    }
}

/// The escape code of a color: `reset`, `black`, `red`, `green`, `yellow`,
/// `blue`, `purple`, `cyan` or `white`.
pub fn color_code(s: &str) -> (r: Result<String, String>)
    ensures
        match r {
            Ok(c) => spec_color_code(s@) == Ok::<Seq<char>, Seq<char>>(c@),
            Err(m) => spec_color_code(s@) == Err::<Seq<char>, Seq<char>>(m@),
        },
{
    let chars = str_chars(s);
    let c = chars.as_slice();
    if chars_eq_str(c, "reset") {
        Ok("\x1B[0m".to_string())
    } else if chars_eq_str(c, "black") {
        Ok("\x1B[30m".to_string())
    } else if chars_eq_str(c, "red") {
        Ok("\x1B[31m".to_string())
    } else if chars_eq_str(c, "green") {
        Ok("\x1B[32m".to_string())
    } else if chars_eq_str(c, "yellow") {
        Ok("\x1B[33m".to_string())
    } else if chars_eq_str(c, "blue") {
        Ok("\x1B[34m".to_string())
    } else if chars_eq_str(c, "purple") {
        Ok("\x1B[35m".to_string())
    } else if chars_eq_str(c, "cyan") {
        Ok("\x1B[36m".to_string())
    } else if chars_eq_str(c, "white") {
        Ok("\x1B[37m".to_string())
    } else {
        let mut m = "The color '".to_string();
        m.append(s);
        m.append("' is not a valid color name");
        Err(m)
    }
}

// ---------------------------------------------------------------------
// Values

/// A Luau value as the pretty printer sees it. Floats arrive as the text
/// that the runtime displays for them; a table is its key-value pairs in the
/// order in which the runtime walked them.
#[derive(Debug)]
pub enum FormatValue {
    Nil,
    Boolean(bool),
    Number(String),
    Integer(i64),
    String(String),
    Table(Vec<TableEntry>),
    Vector(String, String, String),
    Thread,
    Function,
    UserData,
    Other,
}

/// A key-value pair of a table.
#[derive(Debug)]
pub struct TableEntry {
    pub key: FormatValue,
    pub value: FormatValue,
}

/// Tables deeper than this are shown as `{ ... }`.
pub const MAX_FORMAT_DEPTH: usize = 4;

/// The indentation of one level.
pub open spec fn indent_unit() -> Seq<char> {
    "    "@
}

/// The indentation of `depth` levels.
pub open spec fn indent(depth: nat) -> Seq<char>
    decreases depth,
{
    if depth == 0 {
        seq![]
    } else {
        indent((depth - 1) as nat) + indent_unit()
    }
}

/// A character inside the quotes of a printed string: `"` and newlines
/// are escaped with a backslash.
pub open spec fn escape_char(c: char) -> Seq<char> {
    if c == '"' {
        seq!['\\', '"']
    } else if c == '\n' {
        seq!['\\', 'n']
    } else {
        seq![c]
    }
}

/// A string with its quotes and newlines escaped.
pub open spec fn escape_str(s: Seq<char>) -> Seq<char>
    decreases s.len(),
{
    if s.len() == 0 {
        seq![]
    } else {
        escape_str(s.drop_last()) + escape_char(s.last())
    }
}

/// Escaping works character by character: the escape of joined texts is
/// the escapes joined, a quote becomes `\"`, a newline becomes `\n`, and
/// any other character, and so any text without quotes and newlines, is
/// kept as it is.
pub proof fn lemma_escape_str(a: Seq<char>, b: Seq<char>, c: char)
    ensures
        escape_str(a + b) == escape_str(a) + escape_str(b),
        escape_str(seq!['"']) == seq!['\\', '"'],
        escape_str(seq!['\n']) == seq!['\\', 'n'],
        c != '"' && c != '\n' ==> escape_str(seq![c]) == seq![c],
        (forall|i: int| 0 <= i < a.len() ==> #[trigger] a[i] != '"' && a[i] != '\n')
            ==> escape_str(a) == a,
    decreases a.len() + b.len(),
{
    assert(escape_str(Seq::<char>::empty()) == Seq::<char>::empty());
    assert(seq!['"'].drop_last() =~= Seq::<char>::empty());
    assert(seq!['"'].last() == '"');
    assert(escape_str(seq!['"']) =~= seq!['\\', '"']);
    assert(seq!['\n'].drop_last() =~= Seq::<char>::empty());
    assert(seq!['\n'].last() == '\n');
    assert(escape_str(seq!['\n']) =~= seq!['\\', 'n']);
    assert(seq![c].drop_last() =~= Seq::<char>::empty());
    assert(seq![c].last() == c);
    if b.len() > 0 {
        lemma_escape_str(a, b.drop_last(), c);
        assert((a + b).drop_last() =~= a + b.drop_last());
        assert((a + b).last() == b.last());
    } else {
        assert(a + b =~= a);
    }
    if a.len() > 0 && (forall|i: int| 0 <= i < a.len() ==> #[trigger] a[i] != '"' && a[i] != '\n') {
        lemma_escape_str(a.drop_last(), b, c);
        assert forall|i: int| 0 <= i < a.drop_last().len() implies #[trigger] a.drop_last()[i] != '"'
            && a.drop_last()[i] != '\n' by {
            assert(a.drop_last()[i] == a[i]);
        }
        assert(a.last() == a[a.len() - 1]);
        assert(a.drop_last().push(a.last()) =~= a);
    }
}

/// The decimal digit of a number below 10.
pub open spec fn digit(d: nat) -> char {
    (48 + d) as char
}

/// The decimal digits of a natural number.
pub open spec fn decimal(n: nat) -> Seq<char>
    decreases n,
{
    if n < 10 {
        seq![digit(n)]
    } else {
        decimal(n / 10) + seq![digit(n % 10)]
    }
}

/// An integer in decimal, with a minus sign when negative.
pub open spec fn int_text(i: int) -> Seq<char> {
    if i < 0 {
        seq!['-'] + decimal((-i) as nat)
    } else {
        decimal(i as nat)
    }
}

/// Whether a string key can be printed without brackets and quotes: it
/// starts with an alphabetic character and holds only alphanumeric
/// characters and underscores.
pub open spec fn plain_key(s: Seq<char>) -> bool {
    s.len() > 0 && spec_is_alphabetic(s[0]) && forall|i: int|
        0 <= i < s.len() ==> (s[i] == '_' || spec_is_alphanumeric(#[trigger] s[i]))
}

/// How the pretty printer writes a value at a nesting depth.
pub open spec fn fmt_value(v: FormatValue, depth: nat) -> Seq<char>
    decreases v,
{
    match v {
        FormatValue::Nil => "nil"@,
        FormatValue::Boolean(b) => color_yellow() + (if b {
            "true"@
        } else {
            "false"@
        }) + color_reset(),
        FormatValue::Number(n) => color_cyan() + n@ + color_reset(),
        FormatValue::Integer(i) => color_cyan() + int_text(i as int) + color_reset(),
        FormatValue::String(s) => color_green() + "\""@ + escape_str(s@) + "\""@ + color_reset(),
        FormatValue::Table(es) => if depth >= 4 {
            style_dim() + "{ ... }"@ + style_reset()
        } else {
            style_dim() + "{"@ + style_reset() + fmt_entries(es@, depth) + "\n"@ + indent(depth)
                + style_dim() + "}"@ + style_reset()
        },
        FormatValue::Vector(x, y, z) => color_purple() + "<vector("@ + x@ + ", "@ + y@ + ", "@
            + z@ + ")>"@ + color_reset(),
        FormatValue::Thread => color_purple() + "<thread>"@ + color_reset(),
        FormatValue::Function => color_purple() + "<function>"@ + color_reset(),
        FormatValue::UserData => color_purple() + "<userdata>"@ + color_reset(),
        FormatValue::Other => "?"@,
    }
}

/// How the pretty printer writes one pair of a table at a nesting depth:
/// on a line of its own, indented one level more than the table, a plain
/// string key bare and any other key in brackets, then ` = `, the value one
/// level deeper, and a comma.
pub open spec fn fmt_entry(e: TableEntry, depth: nat) -> Seq<char>
    decreases e,
{
    let key_part = match e.key {
        FormatValue::String(k) => if plain_key(k@) {
            "\n"@ + indent(depth) + indent_unit() + k@ + " "@
        } else {
            "\n"@ + indent(depth) + indent_unit() + "["@ + fmt_value(e.key, depth) + "] "@
        },
        _ => "\n"@ + indent(depth) + indent_unit() + "["@ + fmt_value(e.key, depth) + "] "@,
    };
    key_part + style_dim() + "="@ + style_reset() + " "@ + fmt_value(e.value, depth + 1)
        + style_dim() + ","@ + style_reset()
}

/// How the pretty printer writes the pairs of a table, one after the other.
pub open spec fn fmt_entries(s: Seq<TableEntry>, depth: nat) -> Seq<char>
    decreases s,
{
    if s.len() == 0 {
        seq![]
    } else {
        fmt_entries(s.drop_last(), depth) + fmt_entry(s.last(), depth)
    }
}

/// Whether the pretty printer can write a value: no string key that it
/// reaches is empty.
pub open spec fn keys_ok(v: FormatValue, depth: nat) -> bool
    decreases v,
{
    match v {
        FormatValue::Table(es) => depth >= 4 || entries_ok(es@, depth),
        _ => true,
    }
}

/// Whether the pretty printer can write the pairs of a table.
pub open spec fn entries_ok(s: Seq<TableEntry>, depth: nat) -> bool
    decreases s,
{
    if s.len() == 0 {
        true
    } else {
        let e = s.last();
        &&& entries_ok(s.drop_last(), depth)
        &&& (match e.key {
            FormatValue::String(k) => k@.len() > 0,
            _ => true,
        })
        &&& keys_ok(e.key, depth)
        &&& keys_ok(e.value, depth + 1)
    }
}

/// Appends the indentation of `depth` levels.
fn push_indent(buf: &mut String, depth: usize)
    ensures
        final(buf)@ == old(buf)@ + indent(depth as nat),
{
    let mut i: usize = 0;
    let ghost b0 = buf@;
    while i < depth
        invariant
            i <= depth,
            buf@ == b0 + indent(i as nat),
        decreases depth - i,
    {
        buf.append("    ");
        i = i + 1;
        assert(buf@ =~= b0 + indent(i as nat));
    }
}

/// The decimal digits of a number.
pub fn decimal_exec(n: u64) -> (r: Vec<char>)
    ensures
        r@ == decimal(n as nat),
    decreases n,
{
    let d: u8 = (n % 10) as u8;
    let c: char = (48u8 + d) as char;
    assert(c == digit((n % 10) as nat));
    if n < 10 {
        let mut r: Vec<char> = Vec::new();
        r.push(c);
        assert(r@ =~= decimal(n as nat));
        r
    } else {
        let mut r = decimal_exec(n / 10);
        r.push(c);
        assert(r@ =~= decimal(n as nat));
        r
    }
}

/// An integer in decimal.
fn int_text_exec(i: i64) -> (r: Vec<char>)
    ensures
        r@ == int_text(i as int),
{
    if i < 0 {
        let wide: i128 = i as i128;
        let m: u64 = (-wide) as u64;
        let digits = decimal_exec(m);
        let mut r: Vec<char> = Vec::new();
        r.push('-');
        let mut k: usize = 0;
        while k < digits.len()
            invariant
                k <= digits@.len(),
                r@ == seq!['-'] + digits@.take(k as int),
            decreases digits@.len() - k,
        {
            r.push(digits[k]);
            assert(digits@.take(k + 1) =~= digits@.take(k as int).push(digits@[k as int]));
            k = k + 1;
        }
        assert(digits@.take(k as int) =~= digits@);
        r
    } else {
        decimal_exec(i as u64)
    }
}

/// Appends a string with its quotes and newlines escaped.
fn push_escaped(buf: &mut String, s: &str)
    ensures
        final(buf)@ == old(buf)@ + escape_str(s@),
{
    let chars = str_chars(s);
    let mut out: Vec<char> = Vec::new();
    let mut i: usize = 0;
    while i < chars.len()
        invariant
            i <= chars@.len(),
            out@ == escape_str(chars@.take(i as int)),
        decreases chars@.len() - i,
    {
        let c = chars[i];
        let ghost before = out@;
        if c == '"' {
            out.push('\\');
            out.push('"');
        } else if c == '\n' {
            out.push('\\');
            out.push('n');
        } else {
            out.push(c);
        }
        assert(out@ =~= before + escape_char(c));
        assert(chars@.take(i + 1).drop_last() =~= chars@.take(i as int));
        i = i + 1;
    }
    assert(chars@.take(i as int) =~= chars@);
    append_chars(buf, out.as_slice());
}

/// Whether a string key can be printed bare: it starts with an alphabetic
/// character and holds only alphanumeric characters and underscores.
pub fn can_be_plain_lua_table_key(s: &str) -> (r: bool)
    requires
        s@.len() > 0,
    ensures
        r == plain_key(s@),
{
    let chars = str_chars(s);
    if !is_alphabetic(chars[0]) {
        return false;
    }
    let mut i: usize = 0;
    while i < chars.len()
        invariant
            chars@ == s@,
            i <= chars@.len(),
            spec_is_alphabetic(chars@[0]),
            forall|k: int| 0 <= k < i ==> (chars@[k] == '_' || spec_is_alphanumeric(#[trigger] chars@[k])),
        decreases chars@.len() - i,
    {
        let c = chars[i];
        if !(c == '_' || is_alphanumeric(c)) {
            return false;
        }
        i = i + 1;
    }
    true
}

/// What `entries_ok` says of each pair.
pub proof fn lemma_entries_ok_index(s: Seq<TableEntry>, depth: nat, i: int)
    requires
        entries_ok(s, depth),
        0 <= i < s.len(),
    ensures
        (match s[i].key {
            FormatValue::String(k) => k@.len() > 0,
            _ => true,
        }),
        keys_ok(s[i].key, depth),
        keys_ok(s[i].value, depth + 1),
    decreases s.len(),
{
    if i < s.len() - 1 {
        lemma_entries_ok_index(s.drop_last(), depth, i);
    }
}

/// Appends how the pretty printer writes one pair of a table.
fn write_entry(buffer: &mut String, e: &TableEntry, depth: usize)
    requires
        depth < 4,
        (match e.key {
            FormatValue::String(k) => k@.len() > 0,
            _ => true,
        }),
        keys_ok(e.key, depth as nat),
        keys_ok(e.value, (depth + 1) as nat),
    ensures
        final(buffer)@ == old(buffer)@ + fmt_entry(*e, depth as nat),
    decreases e,
{
    let plain = match &e.key {
        FormatValue::String(k) => can_be_plain_lua_table_key(k.as_str()),
        _ => false,
    };
    buffer.append("\n");
    push_indent(buffer, depth);
    buffer.append("    ");
    if plain {
        match &e.key {
            FormatValue::String(k) => {
                buffer.append(k.as_str());
                buffer.append(" ");
            },
            _ => {},
        }
    } else {
        buffer.append("[");
        pretty_format_value(buffer, &e.key, depth);
        buffer.append("] ");
    }
    buffer.append("\x1B[2m");
    buffer.append("=");
    buffer.append("\x1B[22m");
    buffer.append(" ");
    pretty_format_value(buffer, &e.value, depth + 1);
    buffer.append("\x1B[2m");
    buffer.append(",");
    buffer.append("\x1B[22m");
}

/// Appends how the pretty printer writes a value at a nesting depth.
pub fn pretty_format_value(buffer: &mut String, value: &FormatValue, depth: usize)
    requires
        keys_ok(*value, depth as nat),
    ensures
        final(buffer)@ == old(buffer)@ + fmt_value(*value, depth as nat),
    decreases value,
{
    match value {
        FormatValue::Nil => {
            buffer.append("nil");
        },
        FormatValue::Boolean(b) => {
            buffer.append("\x1B[33m");
            if *b {
                buffer.append("true");
            } else {
                buffer.append("false");
            }
            buffer.append("\x1B[0m");
        },
        FormatValue::Number(n) => {
            buffer.append("\x1B[36m");
            buffer.append(n.as_str());
            buffer.append("\x1B[0m");
        },
        FormatValue::Integer(i) => {
            buffer.append("\x1B[36m");
            let t = int_text_exec(*i);
            append_chars(buffer, t.as_slice());
            buffer.append("\x1B[0m");
        },
        FormatValue::String(s) => {
            buffer.append("\x1B[32m");
            buffer.append("\"");
            push_escaped(buffer, s.as_str());
            buffer.append("\"");
            buffer.append("\x1B[0m");
        },
        FormatValue::Table(es) => {
            if depth >= MAX_FORMAT_DEPTH {
                buffer.append("\x1B[2m");
                buffer.append("{ ... }");
                buffer.append("\x1B[22m");
            } else {
                buffer.append("\x1B[2m");
                buffer.append("{");
                buffer.append("\x1B[22m");
                let ghost b0 = buffer@;
                let mut i: usize = 0;
                while i < es.len()
                    invariant
                        depth < 4,
                        i <= es@.len(),
                        entries_ok(es@, depth as nat),
                        buffer@ == b0 + fmt_entries(es@.take(i as int), depth as nat),
                        *value == FormatValue::Table(*es),
                    decreases es@.len() - i,
                {
                    proof {
                        lemma_entries_ok_index(es@, depth as nat, i as int);
                        assert(decreases_to!(*value => value->Table_0));
                        assert(decreases_to!(value->Table_0 => es@[i as int]));
                    }
                    write_entry(buffer, &es[i], depth);
                    proof {
                        let t = es@.take(i + 1);
                        assert(t.drop_last() =~= es@.take(i as int));
                        assert(t.last() == es@[i as int]);
                        assert(buffer@ =~= b0 + fmt_entries(t, depth as nat));
                    }
                    i = i + 1;
                }
                assert(es@.take(i as int) =~= es@);
                buffer.append("\n");
                push_indent(buffer, depth);
                buffer.append("\x1B[2m");
                buffer.append("}");
                buffer.append("\x1B[22m");
            }
        },
        FormatValue::Vector(x, y, z) => {
            buffer.append("\x1B[35m");
            buffer.append("<vector(");
            buffer.append(x.as_str());
            buffer.append(", ");
            buffer.append(y.as_str());
            buffer.append(", ");
            buffer.append(z.as_str());
            buffer.append(")>");
            buffer.append("\x1B[0m");
        },
        FormatValue::Thread => {
            buffer.append("\x1B[35m");
            buffer.append("<thread>");
            buffer.append("\x1B[0m");
        },
        FormatValue::Function => {
            buffer.append("\x1B[35m");
            buffer.append("<function>");
            buffer.append("\x1B[0m");
        },
        FormatValue::UserData => {
            buffer.append("\x1B[35m");
            buffer.append("<userdata>");
            buffer.append("\x1B[0m");
        },
        FormatValue::Other => {
            buffer.append("?");
        },
    }
}

/// Whether the pretty printer can write a value at a nesting depth: every
/// string key of a table it shows is non-empty.
pub fn can_pretty_format(value: &FormatValue, depth: usize) -> (r: bool)
    ensures
        r == keys_ok(*value, depth as nat),
    decreases value,
{
    match value {
        FormatValue::Table(es) => {
            if depth >= MAX_FORMAT_DEPTH {
                return true;
            }
            let mut i: usize = 0;
            assert(es@.take(0) =~= Seq::<TableEntry>::empty());
            while i < es.len()
                invariant
                    depth < 4,
                    i <= es@.len(),
                    entries_ok(es@.take(i as int), depth as nat),
                    *value == FormatValue::Table(*es),
                decreases es@.len() - i,
            {
                let e = &es[i];
                let ghost t = es@.take(i + 1);
                assert(t.drop_last() =~= es@.take(i as int));
                assert(t.last() == es@[i as int]);
                proof {
                    assert(decreases_to!(*value => value->Table_0));
                    assert(decreases_to!(value->Table_0 => es@[i as int]));
                }
                let key_nonempty = match &e.key {
                    FormatValue::String(k) => str_chars(k.as_str()).len() > 0,
                    _ => true,
                };
                if !key_nonempty || !can_pretty_format(&e.key, depth) || !can_pretty_format(
                    &e.value,
                    depth + 1,
                ) {
                    proof {
                        if entries_ok(es@, depth as nat) {
                            lemma_entries_ok_index(es@, depth as nat, i as int);
                        }
                    }
                    return false;
                }
                i = i + 1;
            }
            assert(es@.take(i as int) =~= es@);
            true
        },
        _ => true,
    }
}

/// How a value is written among several: a string as it is, anything else
/// pretty printed at the top level.
pub open spec fn multi_piece(v: FormatValue) -> Seq<char> {
    match v {
        FormatValue::String(s) => s@,
        _ => fmt_value(v, 0),
    }
}

/// Several values written one after the other, separated by spaces.
pub open spec fn fmt_multi(s: Seq<FormatValue>) -> Seq<char>
    decreases s.len(),
{
    if s.len() == 0 {
        seq![]
    } else if s.len() == 1 {
        multi_piece(s[0])
    } else {
        fmt_multi(s.drop_last()) + " "@ + multi_piece(s.last())
    }
}

/// A string among the values of a print is written exactly as it is:
/// alone it is the whole output, and after other values it follows them
/// and a single space.
pub proof fn lemma_multi_strings_verbatim(values: Seq<FormatValue>, s: String)
    ensures
        fmt_multi(seq![FormatValue::String(s)]) == s@,
        values.len() > 0 ==> fmt_multi(values.push(FormatValue::String(s))) == fmt_multi(values)
            + " "@ + s@,
{
    let one = seq![FormatValue::String(s)];
    assert(one.len() == 1 && one[0] == FormatValue::String(s));
    if values.len() > 0 {
        let t = values.push(FormatValue::String(s));
        assert(t.drop_last() =~= values);
        assert(t.last() == FormatValue::String(s));
    }
}

/// A print of no values writes nothing; a value that is not a string is
/// written as the pretty printer writes it at the top level; and every
/// value after the first follows the values before it and a single space.
pub proof fn lemma_multi_values_joined(values: Seq<FormatValue>, v: FormatValue)
    ensures
        fmt_multi(Seq::<FormatValue>::empty()) == Seq::<char>::empty(),
        !(v is String) ==> fmt_multi(seq![v]) == fmt_value(v, 0),
        values.len() > 0 ==> fmt_multi(values.push(v)) == fmt_multi(values) + " "@ + fmt_multi(
            seq![v],
        ),
{
    let one = seq![v];
    assert(one.len() == 1 && one[0] == v);
    if values.len() > 0 {
        let t = values.push(v);
        assert(t.drop_last() =~= values);
        assert(t.last() == v);
    }
}

/// Whether every value of several can be pretty printed.
pub open spec fn all_keys_ok(s: Seq<FormatValue>) -> bool {
    forall|i: int| 0 <= i < s.len() ==> keys_ok(#[trigger] s[i], 0)
}

/// Writes several values separated by spaces: strings as they are, other
/// values pretty printed.
pub fn pretty_format_multi_value(multi: &[FormatValue]) -> (r: String)
    requires
        all_keys_ok(multi@),
    ensures
        r@ == fmt_multi(multi@),
{
    let mut buffer = String::new();
    let mut i: usize = 0;
    while i < multi.len()
        invariant
            i <= multi@.len(),
            all_keys_ok(multi@),
            buffer@ == fmt_multi(multi@.take(i as int)),
        decreases multi@.len() - i,
    {
        let ghost b0 = buffer@;
        if i > 0 {
            buffer.append(" ");
        }
        match &multi[i] {
            FormatValue::String(s) => {
                buffer.append(s.as_str());
            },
            v => {
                assert(keys_ok(multi@[i as int], 0));
                pretty_format_value(&mut buffer, v, 0);
            },
        }
        proof {
            let t = multi@.take(i + 1);
            assert(t.drop_last() =~= multi@.take(i as int));
            assert(t.last() == multi@[i as int]);
            if i == 0 {
                assert(buffer@ =~= fmt_multi(t));
            } else {
                assert(buffer@ =~= b0 + " "@ + multi_piece(multi@[i as int]));
            }
        }
        i = i + 1;
    }
    assert(multi@.take(i as int) =~= multi@);
    buffer
}

/// The console: colors, styles and the printing of values.
pub struct Console;

impl Console {
    /// The console.
    pub fn new() -> (r: Self) {
        Console
    }

    /// The escape code that sets a color, named in any ASCII case and with
    /// any surrounding whitespace.
    pub fn set_color(&self, color: &str) -> (r: Result<String, String>)
        ensures
            match r {
                Ok(c) => spec_color_code(ascii_lower(trim(color@))) == Ok::<Seq<char>, Seq<char>>(
                    c@,
                ),
                Err(m) => spec_color_code(ascii_lower(trim(color@))) == Err::<
                    Seq<char>,
                    Seq<char>,
                >(m@),
            },
    {
        let t = trim_chars(str_chars(color).as_slice());
        let l = to_ascii_lower(t.as_slice());
        let name = crate::text::chars_to_string(l.as_slice());
        color_code(name.as_str())
    }

    /// The escape code that sets a style, named in any ASCII case and with
    /// any surrounding whitespace.
    pub fn set_style(&self, style: &str) -> (r: Result<String, String>)
        ensures
            match r {
                Ok(c) => spec_style_code(ascii_lower(trim(style@))) == Ok::<Seq<char>, Seq<char>>(
                    c@,
                ),
                Err(m) => spec_style_code(ascii_lower(trim(style@))) == Err::<
                    Seq<char>,
                    Seq<char>,
                >(m@),
            },
    {
        let t = trim_chars(str_chars(style).as_slice());
        let l = to_ascii_lower(t.as_slice());
        let name = crate::text::chars_to_string(l.as_slice());
        style_code(name.as_str())
    }

    /// The escape code that resets the color.
    pub fn reset_color(&self) -> (r: String)
        ensures
            r@ == color_reset(),
    {
        "\x1B[0m".to_string()
    }

    /// The escape code that resets the style.
    pub fn reset_style(&self) -> (r: String)
        ensures
            r@ == style_reset(),
    {
        "\x1B[22m".to_string()
    }

    /// Several values written as the console writes them.
    pub fn format(&self, values: &[FormatValue]) -> (r: String)
        requires
            all_keys_ok(values@),
        ensures
            r@ == fmt_multi(values@),
    {
        pretty_format_multi_value(values)
    }

    /// The line that `info`, `warn` or `error` prints: the label, then the
    /// values.
    pub fn labelled(&self, label: &str, values: &[FormatValue]) -> (r: String)
        requires
            all_keys_ok(values@),
        ensures
            r@ == spec_format_label(label@) + fmt_multi(values@),
    {
        let mut r = format_label(label);
        let body = pretty_format_multi_value(values);
        r.append(body.as_str());
        r
    }
}

// ---------------------------------------------------------------------
// Errors

/// A Luau error as the error printer sees it. Errors of other kinds arrive
/// as the text that the runtime displays for them.
#[derive(Debug)]
pub enum LuauError {
    /// An error raised at run time, with its message and traceback.
    Runtime(String),
    /// An error raised inside a callback, with the traceback at that point
    /// and the error that caused it.
    Callback { traceback: String, cause: Box<LuauError> },
    /// A value that could not be converted to a Luau value.
    ToLuaConversion { from: String, to: String, message: Option<String> },
    /// A Luau value that could not be converted to a value of the runtime.
    FromLuaConversion { from: String, to: String, message: Option<String> },
    /// Any other error, as it is displayed.
    Other(String),
}

/// The marker that replaces the traceback heading.
pub open spec fn stack_begin() -> Seq<char> {
    "["@ + color_blue() + "Stack Begin"@ + color_reset() + "]"@
}

/// The marker at the end of a traceback.
pub open spec fn stack_end() -> Seq<char> {
    "["@ + color_blue() + "Stack End"@ + color_reset() + "]"@
}

/// The heading that opens a traceback, with its newline.
pub open spec fn traceback_heading() -> Seq<char> {
    "stack traceback:\n"@
}

/// The index of the last line equal to `t`.
pub open spec fn last_index_of(ls: Seq<Seq<char>>, t: Seq<char>) -> Option<int>
    decreases ls.len(),
{
    if ls.len() == 0 {
        None
    } else if ls.last() == t {
        Some(ls.len() - 1)
    } else {
        last_index_of(ls.drop_last(), t)
    }
}

/// The text of a run-time error: its last `stack traceback:` line replaced
/// by the begin marker and the end marker added as a last line, when there
/// is such a line.
pub open spec fn runtime_text(s: Seq<char>) -> Seq<char> {
    let ls = crate::text::lines(s);
    match last_index_of(ls, "stack traceback:"@) {
        Some(i) => crate::text::join(ls.update(i, stack_begin()).push(stack_end()), "\n"@),
        None => crate::text::join(ls, "\n"@),
    }
}

/// The details line of a conversion error, if it has a message.
pub open spec fn details(m: Option<String>) -> Seq<char> {
    match m {
        Some(m) => "\nDetails:\n\t"@ + m@,
        None => seq![],
    }
}

/// A first line of the form `[string "path"]:line: message` cut down to
/// the message.
pub open spec fn strip_script_path(l: Seq<char>) -> Seq<char> {
    if "[string \""@.is_prefix_of(l) {
        match crate::text::find_seq(l, "]:"@) {
            Some(cb) => {
                let after = l.skip(cb + 2);
                match crate::text::find_seq(after, ": "@) {
                    Some(lc) => after.skip(lc + 2),
                    None => after,
                }
            },
            None => l,
        }
    } else {
        l
    }
}

/// An error text split into lines, the script path cut from the first
/// line, and joined again.
pub open spec fn clean_text(s: Seq<char>) -> Seq<char> {
    let ls = crate::text::lines(s);
    if ls.len() > 0 {
        crate::text::join(ls.update(0, strip_script_path(ls[0])), "\n"@)
    } else {
        seq![]
    }
}

/// The number of bytes of a text in UTF-8.
pub open spec fn byte_len(s: Seq<char>) -> nat {
    encode_utf8(s).len()
}

/// How the error printer writes an error.
pub open spec fn fmt_error(e: LuauError) -> Seq<char>
    decreases e, 0nat,
{
    match e {
        LuauError::Runtime(s) => clean_text(runtime_text(s@)),
        LuauError::Callback { traceback, cause } => fmt_callback(*cause, traceback@),
        LuauError::ToLuaConversion { from, to, message } => clean_text(
            "Failed to convert Rust type '"@ + from@ + "' into Luau type '"@ + to@ + "'!"@
                + details(message),
        ),
        LuauError::FromLuaConversion { from, to, message } => clean_text(
            "Failed to convert Luau type '"@ + from@ + "' into Rust type '"@ + to@ + "'!"@
                + details(message),
        ),
        LuauError::Other(s) => clean_text(s@),
    }
}

/// How the error printer writes a chain of callback errors: it walks down
/// to the root cause, keeps the longest traceback (in bytes, the first of
/// equal ones), and writes the root cause, the begin marker, that traceback
/// without its heading, and the end marker, one per line.
pub open spec fn fmt_callback(c: LuauError, best: Seq<char>) -> Seq<char>
    decreases c, 1nat,
{
    match c {
        LuauError::Callback { traceback, cause } => fmt_callback(
            *cause,
            if byte_len(traceback@) > byte_len(best) {
                traceback@
            } else {
                best
            },
        ),
        _ => clean_text(
            fmt_error(c) + "\n"@ + stack_begin() + "\n"@ + best.skip(
                traceback_heading().len() as int,
            ) + "\n"@ + stack_end(),
        ),
    }
}

/// Whether the traceback that a chain of callback errors keeps starts with
/// the traceback heading.
pub open spec fn callback_ok(c: LuauError, best: Seq<char>) -> bool
    decreases c,
{
    match c {
        LuauError::Callback { traceback, cause } => callback_ok(
            *cause,
            if byte_len(traceback@) > byte_len(best) {
                traceback@
            } else {
                best
            },
        ),
        _ => traceback_heading().is_prefix_of(best),
    }
}

/// Whether the error printer can write an error: the traceback that it
/// keeps of a callback error starts with the traceback heading.
pub open spec fn error_ok(e: LuauError) -> bool {
    match e {
        LuauError::Callback { traceback, cause } => callback_ok(*cause, traceback@),
        _ => true,
    }
}

/// Whether the traceback that a chain of callback errors keeps starts with
/// the traceback heading.
fn callback_ok_exec(c: &LuauError, best: &str) -> (r: bool)
    ensures
        r == callback_ok(*c, best@),
    decreases c,
{
    match c {
        LuauError::Callback { traceback, cause } => {
            if traceback.as_str().as_bytes().len() > best.as_bytes().len() {
                callback_ok_exec(cause, traceback.as_str())
            } else {
                callback_ok_exec(cause, best)
            }
        },
        _ => crate::text::starts_with_chars(str_chars(best).as_slice(), "stack traceback:\n"),
    }
}

/// Whether the error printer can write an error: for a chain of callback
/// errors, the traceback it keeps must start with `stack traceback:` and a
/// newline.
pub fn can_format_error(e: &LuauError) -> (r: bool)
    ensures
        r == error_ok(*e),
{
    match e {
        LuauError::Callback { traceback, cause } => callback_ok_exec(cause, traceback.as_str()),
        _ => true,
    }
}

/// The lines of a text, with the script path cut from the first, joined.
fn clean_text_exec(s: &[char]) -> (r: String)
    ensures
        r@ == clean_text(s@),
{
    let mut ls = lines_of(s);
    if ls.len() == 0 {
        return String::new();
    }
    let first = strip_script_path_exec(ls[0].as_slice());
    let ghost before = views(ls@);
    ls.set(0, first);
    assert(views(ls@) =~= before.update(0, strip_script_path(before[0])));
    let nl: Vec<char> = vec!['\n'];
    assert(nl@ =~= "\n"@) by {
        reveal_strlit("\n");
    }
    let joined = join_chars(&ls, nl.as_slice());
    chars_to_string(joined.as_slice())
}

/// A first line cut down to its message, as `strip_script_path`.
fn strip_script_path_exec(l: &[char]) -> (r: Vec<char>)
    ensures
        r@ == strip_script_path(l@),
{
    if !starts_with_chars(l, "[string \"") {
        return sub_chars(l, 0, l.len());
    }
    match find_seq_exec(l, "]:") {
        Some(cb) => {
            proof {
                reveal_strlit("]:");
            }
            assert("]:"@.len() == 2);
            let n = l.len();
            let after = sub_chars(l, cb + 2, n);
            assert(after@ =~= l@.skip(cb + 2));
            match find_seq_exec(after.as_slice(), ": ") {
                Some(lc) => {
                    proof {
                        reveal_strlit(": ");
                    }
                    assert(": "@.len() == 2);
                    let m = after.len();
                    let r = sub_chars(after.as_slice(), lc + 2, m);
                    assert(r@ =~= after@.skip(lc + 2));
                    r
                },
                None => after,
            }
        },
        None => {
            let r = sub_chars(l, 0, l.len());
            assert(r@ =~= l@);
            r
        },
    }
}

/// The index of the last line equal to `stack traceback:`.
fn last_traceback_line(ls: &Vec<Vec<char>>) -> (r: Option<usize>)
    ensures
        match last_index_of(views(ls@), "stack traceback:"@) {
            Some(i) => r == Some(i as usize) && 0 <= i < ls@.len(),
            None => r is None,
        },
{
    let mut i: usize = ls.len();
    assert(views(ls@).take(i as int) =~= views(ls@));
    while i > 0
        invariant
            i <= ls@.len(),
            last_index_of(views(ls@), "stack traceback:"@) == last_index_of(
                views(ls@).take(i as int),
                "stack traceback:"@,
            ),
        decreases i,
    {
        let ghost t = views(ls@).take(i as int);
        assert(t.last() == ls@[i - 1]@);
        if chars_eq_str(ls[i - 1].as_slice(), "stack traceback:") {
            return Some(i - 1);
        }
        assert(t.drop_last() =~= views(ls@).take(i - 1));
        i = i - 1;
    }
    None
}

/// The text of a run-time error with its traceback marked.
fn runtime_text_exec(s: &str) -> (r: Vec<char>)
    ensures
        r@ == runtime_text(s@),
{
    let chars = str_chars(s);
    let mut ls = lines_of(chars.as_slice());
    let nl: Vec<char> = vec!['\n'];
    assert(nl@ =~= "\n"@) by {
        reveal_strlit("\n");
    }
    match last_traceback_line(&ls) {
        Some(i) => {
            let ghost before = views(ls@);
            let mut begin = "[".to_string();
            begin.append("\x1B[34m");
            begin.append("Stack Begin");
            begin.append("\x1B[0m");
            begin.append("]");
            let mut end = "[".to_string();
            end.append("\x1B[34m");
            end.append("Stack End");
            end.append("\x1B[0m");
            end.append("]");
            ls.set(i, str_chars(begin.as_str()));
            ls.push(str_chars(end.as_str()));
            assert(views(ls@) =~= before.update(i as int, stack_begin()).push(stack_end()));
            join_chars(&ls, nl.as_slice())
        },
        None => join_chars(&ls, nl.as_slice()),
    }
}

/// The details line of a conversion error.
fn push_details(buf: &mut String, m: &Option<String>)
    ensures
        final(buf)@ == old(buf)@ + details(*m),
{
    match m {
        Some(m) => {
            buf.append("\nDetails:\n\t");
            buf.append(m.as_str());
        },
        None => {
            assert(old(buf)@ + details(*m) =~= old(buf)@);
        },
    }
}

/// Writes an error the way the runtime reports it: a run-time error with
/// its traceback between begin and end markers, a callback error as its
/// root cause and the longest traceback of the chain, a conversion error as
/// a sentence with its details; and the script path cut from the first line.
pub fn pretty_format_luau_error(e: &LuauError) -> (r: String)
    requires
        error_ok(*e),
    ensures
        r@ == fmt_error(*e),
    decreases e, 0nat,
{
    match e {
        LuauError::Runtime(s) => {
            let t = runtime_text_exec(s.as_str());
            clean_text_exec(t.as_slice())
        },
        LuauError::Callback { traceback, cause } => {
            format_callback(cause, traceback.as_str())
        },
        LuauError::ToLuaConversion { from, to, message } => {
            let mut t = "Failed to convert Rust type '".to_string();
            t.append(from.as_str());
            t.append("' into Luau type '");
            t.append(to.as_str());
            t.append("'!");
            push_details(&mut t, message);
            clean_text_exec(str_chars(t.as_str()).as_slice())
        },
        LuauError::FromLuaConversion { from, to, message } => {
            let mut t = "Failed to convert Luau type '".to_string();
            t.append(from.as_str());
            t.append("' into Rust type '");
            t.append(to.as_str());
            t.append("'!");
            push_details(&mut t, message);
            clean_text_exec(str_chars(t.as_str()).as_slice())
        },
        LuauError::Other(s) => clean_text_exec(str_chars(s.as_str()).as_slice()),
    }
}

/// Writes a chain of callback errors, as `fmt_callback`.
fn format_callback(c: &LuauError, best: &str) -> (r: String)
    requires
        callback_ok(*c, best@),
    ensures
        r@ == fmt_callback(*c, best@),
    decreases c, 1nat,
{
    match c {
        LuauError::Callback { traceback, cause } => {
            if traceback.as_str().as_bytes().len() > best.as_bytes().len() {
                format_callback(cause, traceback.as_str())
            } else {
                format_callback(cause, best)
            }
        },
        _ => {
            let mut t = pretty_format_luau_error(c);
            t.append("\n");
            t.append("[");
            t.append("\x1B[34m");
            t.append("Stack Begin");
            t.append("\x1B[0m");
            t.append("]");
            t.append("\n");
            let bc = str_chars(best);
            proof {
                reveal_strlit("stack traceback:\n");
            }
            let rest = sub_chars(bc.as_slice(), 17, bc.len());
            append_chars(&mut t, rest.as_slice());
            t.append("\n");
            t.append("[");
            t.append("\x1B[34m");
            t.append("Stack End");
            t.append("\x1B[0m");
            t.append("]");
            assert(t@ =~= fmt_error(*c) + "\n"@ + stack_begin() + "\n"@ + best@.skip(
                traceback_heading().len() as int,
            ) + "\n"@ + stack_end());
            clean_text_exec(str_chars(t.as_str()).as_slice())
        },
    }
}

} // verus!
