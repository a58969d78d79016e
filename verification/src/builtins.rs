//! The built-in libraries that scripts can require, the formats of the
//! serialization library, and the file system metadata that the file
//! system library reports.

use vstd::prelude::*;

use crate::text::{
    ascii_lower, ascii_upper, chars_eq_str, chars_to_string, str_chars, to_ascii_lower, trim,
    trim_chars,
};

verus! {

// ---------------------------------------------------------------------
// Built-in libraries

/// A built-in library.
#[derive(Debug, Clone, Copy, PartialEq, Eq, Structural)]
pub enum LuneBuiltin {
    DateTime,
    Fs,
    Luau,
    Net,
    Task,
    Process,
    Regex,
    Serde,
    Stdio,
}

/// The name of a built-in library.
pub open spec fn builtin_name(b: LuneBuiltin) -> Seq<char> {
    match b {
        LuneBuiltin::DateTime => "datetime"@,
        LuneBuiltin::Fs => "fs"@,
        LuneBuiltin::Luau => "luau"@,
        LuneBuiltin::Net => "net"@,
        LuneBuiltin::Task => "task"@,
        LuneBuiltin::Process => "process"@,
        LuneBuiltin::Regex => "regex"@,
        LuneBuiltin::Serde => "serde"@,
        LuneBuiltin::Stdio => "stdio"@,
    }
}

/// The library that a name names, ignoring surrounding whitespace and ASCII
/// case, or the message for a name that names none.
pub open spec fn spec_builtin_from_str(s: Seq<char>) -> Result<LuneBuiltin, Seq<char>> {
    let n = ascii_lower(trim(s));
    if n == "datetime"@ {
        Ok(LuneBuiltin::DateTime)
    } else if n == "fs"@ {
        Ok(LuneBuiltin::Fs)
    } else if n == "luau"@ {
        Ok(LuneBuiltin::Luau)
    } else if n == "net"@ {
        Ok(LuneBuiltin::Net)
    } else if n == "task"@ {
        Ok(LuneBuiltin::Task)
    } else if n == "process"@ {
        Ok(LuneBuiltin::Process)
    } else if n == "regex"@ {
        Ok(LuneBuiltin::Regex)
    } else if n == "serde"@ {
        Ok(LuneBuiltin::Serde)
    } else if n == "stdio"@ {
        Ok(LuneBuiltin::Stdio)
    } else {
        Err("Unknown builtin library '"@ + s + "'"@)
    }
}

impl LuneBuiltin {
    /// The name that scripts require the library by.
    pub fn name(&self) -> (r: &'static str)
        ensures
            r@ == builtin_name(*self),
    {
        match self {
            LuneBuiltin::DateTime => "datetime",
            LuneBuiltin::Fs => "fs",
            LuneBuiltin::Luau => "luau",
            LuneBuiltin::Net => "net",
            LuneBuiltin::Task => "task",
            LuneBuiltin::Process => "process",
            LuneBuiltin::Regex => "regex",
            LuneBuiltin::Serde => "serde",
            LuneBuiltin::Stdio => "stdio",
        }
    }

    /// The library that a name names.
    pub fn from_str(s: &str) -> (r: Result<Self, String>)
        ensures
            match r {
                Ok(b) => spec_builtin_from_str(s@) == Ok::<LuneBuiltin, Seq<char>>(b),
                Err(m) => spec_builtin_from_str(s@) == Err::<LuneBuiltin, Seq<char>>(m@),
            },
    {
        let t = trim_chars(str_chars(s).as_slice());
        let l = to_ascii_lower(t.as_slice());
        let n = l.as_slice();
        if chars_eq_str(n, "datetime") {
            Ok(LuneBuiltin::DateTime)
        } else if chars_eq_str(n, "fs") {
            Ok(LuneBuiltin::Fs)
        } else if chars_eq_str(n, "luau") {
            Ok(LuneBuiltin::Luau)
        } else if chars_eq_str(n, "net") {
            Ok(LuneBuiltin::Net)
        } else if chars_eq_str(n, "task") {
            Ok(LuneBuiltin::Task)
        } else if chars_eq_str(n, "process") {
            Ok(LuneBuiltin::Process)
        } else if chars_eq_str(n, "regex") {
            Ok(LuneBuiltin::Regex)
        } else if chars_eq_str(n, "serde") {
            Ok(LuneBuiltin::Serde)
        } else if chars_eq_str(n, "stdio") {
            Ok(LuneBuiltin::Stdio)
        } else {
            let mut m = "Unknown builtin library '".to_string();
            m.append(s);
            m.append("'");
            Err(m)
        }
    }

    /// The context added to an error of creating the library.
    pub fn create_error_context(&self) -> (r: String)
        ensures
            r@ == "Failed to create builtin library '"@ + builtin_name(*self) + "'"@,
    {
        let mut r = "Failed to create builtin library '".to_string();
        r.append(self.name());
        r.append("'");
        r
    }
}

/// Every library is found again by its own name.
pub proof fn lemma_builtin_name_roundtrip(b: LuneBuiltin)
    ensures
        spec_builtin_from_str(builtin_name(b)) == Ok::<LuneBuiltin, Seq<char>>(b),
{
    reveal_strlit("datetime");
    reveal_strlit("fs");
    reveal_strlit("luau");
    reveal_strlit("net");
    reveal_strlit("task");
    reveal_strlit("process");
    reveal_strlit("regex");
    reveal_strlit("serde");
    reveal_strlit("stdio");
    let n = builtin_name(b);
    crate::text::lemma_trim_no_ws(n);
    crate::text::lemma_ascii_lower_of_lower(n);
}

/// A name of lowercase ASCII letters, uppercased and padded with a space
/// on each side, trims and lowercases back to itself.
proof fn lemma_padded_upper_back(n: Seq<char>)
    requires
        n.len() > 0,
        forall|i: int| 0 <= i < n.len() ==> 'a' <= #[trigger] n[i] <= 'z',
    ensures
        ascii_lower(trim(" "@ + ascii_upper(n) + " "@)) == n,
{
    reveal_strlit(" ");
    let u = ascii_upper(n);
    let s = " "@ + u + " "@;
    assert(s[0] == ' ');
    assert(s.drop_first() =~= u + " "@);
    assert(u[0] == crate::text::upper_char(n[0]));
    assert(!crate::text::is_ws(u[0]));
    assert((u + " "@)[0] == u[0]);
    assert(crate::text::trim_start(u + " "@) == u + " "@);
    assert(crate::text::trim_start(s) == u + " "@);
    assert((u + " "@).drop_last() =~= u);
    assert(u.last() == crate::text::upper_char(n.last()));
    assert(crate::text::trim_end(u) == u);
    assert(trim(s) == u);
    assert forall|i: int| 0 <= i < n.len() implies #[trigger] ascii_lower(u)[i] == n[i] by {
        let c = n[i];
        assert(u[i] == crate::text::upper_char(c));
        assert('A' <= u[i] <= 'Z');
        assert(((((c as u32) - 32) as char) as u32 + 32) as char == c);
    }
    assert(ascii_lower(u) =~= n);
}

/// Every library is found by its name in any ASCII case with surrounding
/// whitespace, such as ` FS ` for `fs`.
pub proof fn lemma_builtin_name_any_case(b: LuneBuiltin)
    ensures
        spec_builtin_from_str(" "@ + ascii_upper(builtin_name(b)) + " "@) == Ok::<
            LuneBuiltin,
            Seq<char>,
        >(b),
{
    reveal_strlit("datetime");
    reveal_strlit("fs");
    reveal_strlit("luau");
    reveal_strlit("net");
    reveal_strlit("task");
    reveal_strlit("process");
    reveal_strlit("regex");
    reveal_strlit("serde");
    reveal_strlit("stdio");
    let n = builtin_name(b);
    lemma_padded_upper_back(n);
    lemma_builtin_name_roundtrip(b);
    crate::text::lemma_trim_no_ws(n);
    crate::text::lemma_ascii_lower_of_lower(n);
    assert(ascii_lower(trim(" "@ + ascii_upper(n) + " "@)) == ascii_lower(trim(n)));
}

// ---------------------------------------------------------------------
// Serialization formats

/// A serialization format.
#[derive(Debug, Clone, Copy, PartialEq, Eq, Structural)]
pub enum EncodeDecodeFormat {
    Json,
    Yaml,
    Toml,
}

/// The format that a name names, ignoring ASCII case and surrounding
/// whitespace, or the message for a name that names none.
pub open spec fn spec_format_from_name(name: Seq<char>) -> Result<EncodeDecodeFormat, Seq<char>> {
    let n = trim(ascii_lower(name));
    if n == "json"@ {
        Ok(EncodeDecodeFormat::Json)
    } else if n == "yaml"@ {
        Ok(EncodeDecodeFormat::Yaml)
    } else if n == "toml"@ {
        Ok(EncodeDecodeFormat::Toml)
    } else {
        Err("Invalid format '"@ + n + "', valid formats are:  json, yaml, toml"@)
    }
}

/// The name of a serialization format.
pub open spec fn encode_decode_format_name(f: EncodeDecodeFormat) -> Seq<char> {
    match f {
        EncodeDecodeFormat::Json => "json"@,
        EncodeDecodeFormat::Yaml => "yaml"@,
        EncodeDecodeFormat::Toml => "toml"@,
    }
}

/// Each serialization format is found by its own name, and only by it: a
/// name that gives a format is, lowercased and trimmed, that format's name,
/// so distinct formats have distinct names.
pub proof fn lemma_encode_decode_format_names(f: EncodeDecodeFormat, name: Seq<char>)
    ensures
        spec_format_from_name(encode_decode_format_name(f)) == Ok::<EncodeDecodeFormat, Seq<char>>(
            f,
        ),
        spec_format_from_name(name) == Ok::<EncodeDecodeFormat, Seq<char>>(f) ==> trim(
            ascii_lower(name),
        ) == encode_decode_format_name(f),
        spec_format_from_name(" "@ + ascii_upper(encode_decode_format_name(f)) + " "@) == Ok::<
            EncodeDecodeFormat,
            Seq<char>,
        >(f),
        (forall|g: EncodeDecodeFormat| trim(ascii_lower(name)) != #[trigger] encode_decode_format_name(g))
            ==> spec_format_from_name(name) == Err::<EncodeDecodeFormat, Seq<char>>(
            "Invalid format '"@ + trim(ascii_lower(name)) + "', valid formats are:  json, yaml, toml"@,
        ),
{
    reveal_strlit("json");
    reveal_strlit("yaml");
    reveal_strlit("toml");
    let n = encode_decode_format_name(f);
    crate::text::lemma_ascii_lower_of_lower(n);
    crate::text::lemma_trim_no_ws(n);
    crate::text::lemma_padded_upper_lowered(n);
    if forall|g: EncodeDecodeFormat| trim(ascii_lower(name)) != #[trigger] encode_decode_format_name(g) {
        assert(trim(ascii_lower(name)) != encode_decode_format_name(EncodeDecodeFormat::Json));
        assert(trim(ascii_lower(name)) != encode_decode_format_name(EncodeDecodeFormat::Yaml));
        assert(trim(ascii_lower(name)) != encode_decode_format_name(EncodeDecodeFormat::Toml));
    }
}

impl EncodeDecodeFormat {
    /// The format that a name names: `json`, `yaml` or `toml`.
    pub fn from_name(name: &str) -> (r: Result<Self, String>)
        ensures
            match r {
                Ok(f) => spec_format_from_name(name@) == Ok::<EncodeDecodeFormat, Seq<char>>(f),
                Err(m) => spec_format_from_name(name@) == Err::<EncodeDecodeFormat, Seq<char>>(
                    m@,
                ),
            },
    {
        let l = to_ascii_lower(str_chars(name).as_slice());
        let t = trim_chars(l.as_slice());
        let n = t.as_slice();
        if chars_eq_str(n, "json") {
            Ok(EncodeDecodeFormat::Json)
        } else if chars_eq_str(n, "yaml") {
            Ok(EncodeDecodeFormat::Yaml)
        } else if chars_eq_str(n, "toml") {
            Ok(EncodeDecodeFormat::Toml)
        } else {
            let mut m = "Invalid format '".to_string();
            m.append(chars_to_string(n).as_str());
            m.append("', valid formats are:  json, yaml, toml");
            Err(m)
        }
    }
}

/// How values are serialized: the format, and whether the output is
/// pretty printed.
#[derive(Debug, Clone, Copy, PartialEq, Eq, Structural)]
pub struct EncodeDecodeConfig {
    pub format: EncodeDecodeFormat,
    pub pretty: bool,
}

impl EncodeDecodeConfig {
    /// Compact serialization in a format.
    pub fn from_format(format: EncodeDecodeFormat) -> (r: Self)
        ensures
            r == (EncodeDecodeConfig { format, pretty: false }),
    {
        EncodeDecodeConfig { format, pretty: false }
    }

    /// Serialization in a format, pretty printed or not.
    pub fn from_format_pretty(format: EncodeDecodeFormat, pretty: bool) -> (r: Self)
        ensures
            r == (EncodeDecodeConfig { format, pretty }),
    {
        EncodeDecodeConfig { format, pretty }
    }
}

// ---------------------------------------------------------------------
// File system metadata

/// What a path is.
#[derive(Debug, Clone, Copy, PartialEq, Eq, Structural)]
pub enum FsMetadataKind {
    /// Nothing: the path does not exist.
    Nothing,
    File,
    Dir,
    Symlink,
}

/// The name of a kind of path.
pub open spec fn metadata_kind_name(k: FsMetadataKind) -> Seq<char> {
    match k {
        FsMetadataKind::Nothing => "none"@,
        FsMetadataKind::File => "file"@,
        FsMetadataKind::Dir => "dir"@,
        FsMetadataKind::Symlink => "symlink"@,
    }
}

/// The kind that a name names, ignoring surrounding whitespace and ASCII
/// case.
pub open spec fn spec_metadata_kind_from_str(s: Seq<char>) -> Option<FsMetadataKind> {
    let n = ascii_lower(trim(s));
    if n == "none"@ {
        Some(FsMetadataKind::Nothing)
    } else if n == "file"@ {
        Some(FsMetadataKind::File)
    } else if n == "dir"@ {
        Some(FsMetadataKind::Dir)
    } else if n == "symlink"@ {
        Some(FsMetadataKind::Symlink)
    } else {
        None
    }
}

impl FsMetadataKind {
    /// The name of the kind: `none`, `file`, `dir` or `symlink`.
    pub fn name(&self) -> (r: &'static str)
        ensures
            r@ == metadata_kind_name(*self),
    {
        match self {
            FsMetadataKind::Nothing => "none",
            FsMetadataKind::File => "file",
            FsMetadataKind::Dir => "dir",
            FsMetadataKind::Symlink => "symlink",
        }
    }

    /// The kind that a name names, or `Invalid metadata kind`.
    pub fn from_str(s: &str) -> (r: Result<Self, &'static str>)
        ensures
            match r {
                Ok(k) => spec_metadata_kind_from_str(s@) == Some(k),
                Err(m) => spec_metadata_kind_from_str(s@) is None && m@ == "Invalid metadata kind"@,
            },
    {
        let t = trim_chars(str_chars(s).as_slice());
        let l = to_ascii_lower(t.as_slice());
        let n = l.as_slice();
        if chars_eq_str(n, "none") {
            Ok(FsMetadataKind::Nothing)
        } else if chars_eq_str(n, "file") {
            Ok(FsMetadataKind::File)
        } else if chars_eq_str(n, "dir") {
            Ok(FsMetadataKind::Dir)
        } else if chars_eq_str(n, "symlink") {
            Ok(FsMetadataKind::Symlink)
        } else {
            Err("Invalid metadata kind")
        }
    }

    /// The kind of a file type: a file, a directory or a symbolic link, in
    /// that order of precedence.
    pub fn from_file_type(is_file: bool, is_dir: bool, is_symlink: bool) -> (r: Self)
        requires
            is_file || is_dir || is_symlink,
        ensures
            r == (if is_file {
                FsMetadataKind::File
            } else if is_dir {
                FsMetadataKind::Dir
            } else {
                FsMetadataKind::Symlink
            }),
    {
        if is_file {
            FsMetadataKind::File
        } else if is_dir {
            FsMetadataKind::Dir
        } else {
            FsMetadataKind::Symlink
        }
    }

    /// What a script sees for the kind: nothing for a path that does not
    /// exist, else the name.
    pub fn into_lua(&self) -> (r: Option<&'static str>)
        ensures
            match r {
                Some(n) => *self != FsMetadataKind::Nothing && n@ == metadata_kind_name(*self),
                None => *self == FsMetadataKind::Nothing,
            },
    {
        if *self == FsMetadataKind::Nothing {
            None
        } else {
            Some(self.name())
        }
    }
}

/// Every kind is found again by its own name.
pub proof fn lemma_metadata_kind_roundtrip(k: FsMetadataKind)
    ensures
        spec_metadata_kind_from_str(metadata_kind_name(k)) == Some(k),
{
    reveal_strlit("none");
    reveal_strlit("file");
    reveal_strlit("dir");
    reveal_strlit("symlink");
    let n = metadata_kind_name(k);
    crate::text::lemma_trim_no_ws(n);
    crate::text::lemma_ascii_lower_of_lower(n);
}

/// The permissions of a path.
#[derive(Debug, Clone, Copy, PartialEq, Eq, Structural)]
pub struct FsPermissions {
    pub read_only: bool,
}

/// What the file system reports about a path. The times are seconds since
/// the Unix epoch, as the runtime displays them.
#[derive(Debug, Clone)]
pub struct FsMetadata {
    pub kind: FsMetadataKind,
    pub exists: bool,
    pub created_at: Option<String>,
    pub modified_at: Option<String>,
    pub accessed_at: Option<String>,
    pub permissions: Option<FsPermissions>,
}

impl FsMetadata {
    /// The metadata of a path that does not exist.
    pub fn not_found() -> (r: Self)
        ensures
            r.kind == FsMetadataKind::Nothing,
            !r.exists,
            r.created_at is None,
            r.modified_at is None,
            r.accessed_at is None,
            r.permissions is None,
    {
        FsMetadata {
            kind: FsMetadataKind::Nothing,
            exists: false,
            created_at: None,
            modified_at: None,
            accessed_at: None,
            permissions: None,
        }
    }
}

// ---------------------------------------------------------------------
// Directory listings

/// The prefix that directory entries start with: the directory's path with
/// a separator at the end.
pub open spec fn dir_prefix(path: Seq<char>, separator: char) -> Seq<char> {
    if path.len() > 0 && path.last() == separator {
        path
    } else {
        path.push(separator)
    }
}

/// Whether every entry, trimmed, starts with the prefix.
pub open spec fn entries_under(entries: Seq<String>, prefix: Seq<char>) -> bool {
    forall|i: int| 0 <= i < entries.len() ==> prefix.is_prefix_of(trim(#[trigger] entries[i]@))
}

/// The names of a directory's entries: each entry's path, trimmed, with the
/// directory's path and a separator cut from its front.
pub fn strip_dir_prefix(path: &str, separator: char, entries: &Vec<String>) -> (r: Vec<String>)
    requires
        entries_under(entries@, dir_prefix(path@, separator)),
    ensures
        r@.len() == entries@.len(),
        forall|i: int|
            0 <= i < r@.len() ==> #[trigger] r@[i]@ == trim(entries@[i]@).skip(
                dir_prefix(path@, separator).len() as int,
            ),
{
    let mut prefix = str_chars(path);
    let n = prefix.len();
    if !(n > 0 && prefix[n - 1] == separator) {
        prefix.push(separator);
    }
    assert(prefix@ == dir_prefix(path@, separator));
    let mut r: Vec<String> = Vec::new();
    let mut i: usize = 0;
    while i < entries.len()
        invariant
            i <= entries@.len(),
            r@.len() == i,
            prefix@ == dir_prefix(path@, separator),
            entries_under(entries@, prefix@),
            forall|k: int|
                0 <= k < i ==> #[trigger] r@[k]@ == trim(entries@[k]@).skip(prefix@.len() as int),
        decreases entries@.len() - i,
    {
        let t = trim_chars(str_chars(entries[i].as_str()).as_slice());
        assert(prefix@.is_prefix_of(trim(entries@[i as int]@)));
        let m = t.len();
        let rest = crate::text::sub_chars(t.as_slice(), prefix.len(), m);
        assert(rest@ =~= t@.skip(prefix@.len() as int));
        r.push(chars_to_string(rest.as_slice()));
        i = i + 1;
    }
    r
}

} // verus!
