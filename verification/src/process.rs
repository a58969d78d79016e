//! Child processes: reading the options of `process.spawn`, the command line
//! that they give, the result of a finished process, and the checks on
//! environment variables that the runtime sets.

use vstd::prelude::*;

use crate::paths::{path_join, path_strip_prefix, spec_path_join, spec_path_strip_prefix};
use crate::text::{
    chars_eq_str, find_char_exec, find_char, join, str_chars, string_from_utf8,
    string_from_utf8_lossy, spec_utf8_lossy,
};
use vstd::utf8::{decode_utf8, valid_utf8};

verus! {

// ---------------------------------------------------------------------
// Spawn options

/// What a field of the options table holds.
#[derive(Debug)]
pub enum OptionField {
    Nil,
    Boolean(bool),
    /// A string, as its bytes.
    String(Vec<u8>),
    /// A table, as its pairs converted to strings: `None` for a pair whose
    /// key or value is not a string.
    Table(Vec<Option<(String, String)>>),
    /// Any other value, by its type name.
    Other(String),
}

/// The fields of an options table that spawning reads.
#[derive(Debug)]
pub struct OptionsTable {
    pub cwd: OptionField,
    pub env: OptionField,
    pub shell: OptionField,
    pub stdio: OptionField,
    pub stdin: OptionField,
}

/// The options argument of `process.spawn`.
#[derive(Debug)]
pub enum OptionsValue {
    Nil,
    Table(OptionsTable),
    /// Any other value, by its type name.
    Other(String),
}

/// The type name of a field's value, as Luau gives it.
pub open spec fn field_type_name(f: OptionField) -> Seq<char> {
    match f {
        OptionField::Nil => "nil"@,
        OptionField::Boolean(_) => "boolean"@,
        OptionField::String(_) => "string"@,
        OptionField::Table(_) => "table"@,
        OptionField::Other(n) => n@,
    }
}

/// The options whose strings must be valid UTF-8.
#[derive(Debug, Clone, Copy, PartialEq, Eq, Structural)]
pub enum Utf8Option {
    Cwd,
    Stdio,
}

/// Errors when reading spawn options.
#[derive(Debug)]
pub enum SpawnOptionsError {
    /// The options are neither nil nor a table; the value is the message of
    /// the conversion error.
    NotATable(String),
    /// A string option that must be UTF-8 is not.
    NotUtf8(Utf8Option),
    /// A key or value of the `env` table is not a string.
    EnvNotStrings,
    /// An option has a wrong type or value; the value is the message.
    Runtime(String),
}

/// The mathematical value of a spawn options error.
pub ghost enum SpawnErrorView {
    NotATable(Seq<char>),
    NotUtf8(Utf8Option),
    EnvNotStrings,
    Runtime(Seq<char>),
}

impl SpawnOptionsError {
    /// The mathematical value of the error.
    pub open spec fn view(&self) -> SpawnErrorView {
        match self {
            SpawnOptionsError::NotATable(t) => SpawnErrorView::NotATable(t@),
            SpawnOptionsError::NotUtf8(o) => SpawnErrorView::NotUtf8(*o),
            SpawnOptionsError::EnvNotStrings => SpawnErrorView::EnvNotStrings,
            SpawnOptionsError::Runtime(m) => SpawnErrorView::Runtime(m@),
        }
    }

}

/// Options for spawning a child process.
#[derive(Debug)]
pub struct ProcessSpawnOptions {
    /// The directory to run in.
    pub cwd: Option<String>,
    /// Environment variables to set, each key once.
    pub envs: Vec<(String, String)>,
    /// The shell to run the command with.
    pub shell: Option<String>,
    /// Whether the child shares the standard streams of the runtime.
    pub inherit_stdio: bool,
    /// Bytes to write to the child's standard input.
    pub stdin: Option<Vec<u8>>,
}

/// The mathematical value of spawn options.
pub ghost struct OptionsView {
    pub cwd: Option<Seq<char>>,
    pub envs: Seq<(Seq<char>, Seq<char>)>,
    pub shell: Option<Seq<char>>,
    pub inherit_stdio: bool,
    pub stdin: Option<Seq<u8>>,
}

/// The text of an optional string.
pub open spec fn opt_text(o: Option<String>) -> Option<Seq<char>> {
    match o {
        Some(s) => Some(s@),
        None => None,
    }
}

/// The values of a list of string pairs.
pub open spec fn pairs_view(s: Seq<(String, String)>) -> Seq<(Seq<char>, Seq<char>)> {
    s.map_values(|p: (String, String)| (p.0@, p.1@))
}

impl ProcessSpawnOptions {
    /// The mathematical value of the options.
    pub open spec fn view(&self) -> OptionsView {
        OptionsView {
            cwd: opt_text(self.cwd),
            envs: pairs_view(self.envs@),
            shell: opt_text(self.shell),
            inherit_stdio: self.inherit_stdio,
            stdin: match self.stdin {
                Some(b) => Some(b@),
                None => None,
            },
        }
    }
}

/// Options with nothing set.
pub open spec fn default_options() -> OptionsView {
    OptionsView { cwd: None, envs: seq![], shell: None, inherit_stdio: false, stdin: None }
}

/// The index of the first pair with key `k`.
pub open spec fn key_index(m: Seq<(Seq<char>, Seq<char>)>, k: Seq<char>) -> Option<int>
    decreases m.len(),
{
    if m.len() == 0 {
        None
    } else {
        match key_index(m.drop_last(), k) {
            Some(i) => Some(i),
            None => if m.last().0 == k {
                Some(m.len() - 1)
            } else {
                None
            },
        }
    }
}

/// A map of strings held as pairs, after setting `k` to `v`: the value of an
/// existing key is replaced in place, a new key is added at the end.
pub open spec fn env_insert(m: Seq<(Seq<char>, Seq<char>)>, k: Seq<char>, v: Seq<char>) -> Seq<
    (Seq<char>, Seq<char>),
> {
    match key_index(m, k) {
        Some(i) => m.update(i, (k, v)),
        None => m.push((k, v)),
    }
}

/// Whether no key occurs twice.
pub open spec fn keys_unique(m: Seq<(Seq<char>, Seq<char>)>) -> bool {
    forall|i: int, j: int| 0 <= i < j < m.len() ==> #[trigger] m[i].0 != #[trigger] m[j].0
}

/// The variables that the pairs of an `env` table set, or `None` if a pair
/// is not made of strings.
pub open spec fn envs_from_pairs(ps: Seq<Option<(String, String)>>) -> Option<
    Seq<(Seq<char>, Seq<char>)>,
>
    decreases ps.len(),
{
    if ps.len() == 0 {
        Some(seq![])
    } else {
        match envs_from_pairs(ps.drop_last()) {
            None => None,
            Some(m) => match ps.last() {
                None => None,
                Some(p) => Some(env_insert(m, p.0@, p.1@)),
            },
        }
    }
}

/// The working directory that a `cwd` option names: a leading `~`
/// component is replaced by the home directory.
pub open spec fn spec_resolve_cwd(s: Seq<char>, home: Option<Seq<char>>) -> Result<
    Seq<char>,
    SpawnErrorView,
> {
    match spec_path_strip_prefix(s, "~"@) {
        Some(rest) => match home {
            Some(h) => Ok(spec_path_join(h, rest)),
            None => Err(
                SpawnErrorView::Runtime(
                    "Invalid value for option 'cwd' - failed to get home directory"@,
                ),
            ),
        },
        None => Ok(s),
    }
}

/// The shell that `shell = true` picks on a platform family.
pub open spec fn default_shell(family: Seq<char>) -> Option<Seq<char>> {
    if family == "unix"@ {
        Some("/bin/sh"@)
    } else if family == "windows"@ {
        Some("powershell"@)
    } else {
        None
    }
}

/// The message for an option of the wrong type.
pub open spec fn type_message(option: Seq<char>, expected: Seq<char>, got: Seq<char>) -> Seq<char> {
    "Invalid type for option '"@ + option + "' - expected "@ + expected + ", got '"@ + got + "'"@
}

/// The `cwd` option read.
pub open spec fn spec_cwd(f: OptionField, home: Option<Seq<char>>, cwd_exists: bool) -> Result<
    Option<Seq<char>>,
    SpawnErrorView,
> {
    match f {
        OptionField::Nil => Ok(None),
        OptionField::String(b) => if !valid_utf8(b@) {
            Err(SpawnErrorView::NotUtf8(Utf8Option::Cwd))
        } else {
            match spec_resolve_cwd(decode_utf8(b@), home) {
                Ok(p) => if cwd_exists {
                    Ok(Some(p))
                } else {
                    Err(
                        SpawnErrorView::Runtime(
                            "Invalid value for option 'cwd' - path does not exist"@,
                        ),
                    )
                },
                Err(e) => Err(e),
            }
        },
        _ => Err(
            SpawnErrorView::Runtime(type_message("cwd"@, "string"@, field_type_name(f))),
        ),
    }
}

/// The `env` option read.
pub open spec fn spec_env(f: OptionField) -> Result<Seq<(Seq<char>, Seq<char>)>, SpawnErrorView> {
    match f {
        OptionField::Nil => Ok(seq![]),
        OptionField::Table(ps) => match envs_from_pairs(ps@) {
            Some(m) => Ok(m),
            None => Err(SpawnErrorView::EnvNotStrings),
        },
        _ => Err(SpawnErrorView::Runtime(type_message("env"@, "table"@, field_type_name(f)))),
    }
}

/// The `shell` option read.
pub open spec fn spec_shell(f: OptionField, family: Seq<char>) -> Result<
    Option<Seq<char>>,
    SpawnErrorView,
> {
    match f {
        OptionField::Nil => Ok(None),
        OptionField::String(b) => Ok(Some(spec_utf8_lossy(b@))),
        OptionField::Boolean(true) => Ok(default_shell(family)),
        _ => Err(
            SpawnErrorView::Runtime(
                type_message("shell"@, "'true' or 'string'"@, field_type_name(f)),
            ),
        ),
    }
}

/// The `stdio` option read: whether the child inherits the streams.
pub open spec fn spec_stdio(f: OptionField) -> Result<bool, SpawnErrorView> {
    match f {
        OptionField::Nil => Ok(false),
        OptionField::String(b) => if !valid_utf8(b@) {
            Err(SpawnErrorView::NotUtf8(Utf8Option::Stdio))
        } else if decode_utf8(b@) == "inherit"@ {
            Ok(true)
        } else if decode_utf8(b@) == "default"@ {
            Ok(false)
        } else {
            Err(
                SpawnErrorView::Runtime(
                    "Invalid value for option 'stdio' - expected 'inherit' or 'default', got '"@
                        + decode_utf8(b@) + "'"@,
                ),
            )
        },
        _ => Err(
            SpawnErrorView::Runtime(type_message("stdio"@, "'string'"@, field_type_name(f))),
        ),
    }
}

/// The `stdin` option read.
pub open spec fn spec_stdin(f: OptionField) -> Result<Option<Seq<u8>>, SpawnErrorView> {
    match f {
        OptionField::Nil => Ok(None),
        OptionField::String(b) => Ok(Some(b@)),
        _ => Err(
            SpawnErrorView::Runtime(type_message("stdin"@, "'string'"@, field_type_name(f))),
        ),
    }
}

/// Spawn options read from a table, the options checked in the order
/// `cwd`, `env`, `shell`, `stdio`, `stdin`, the first error reported.
pub open spec fn spec_from_table(
    t: OptionsTable,
    home: Option<Seq<char>>,
    cwd_exists: bool,
    family: Seq<char>,
) -> Result<OptionsView, SpawnErrorView> {
    match spec_cwd(t.cwd, home, cwd_exists) {
        Err(e) => Err(e),
        Ok(cwd) => match spec_env(t.env) {
            Err(e) => Err(e),
            Ok(envs) => match spec_shell(t.shell, family) {
                Err(e) => Err(e),
                Ok(shell) => match spec_stdio(t.stdio) {
                    Err(e) => Err(e),
                    Ok(inherit_stdio) => match spec_stdin(t.stdin) {
                        Err(e) => Err(e),
                        Ok(stdin) => Ok(OptionsView { cwd, envs, shell, inherit_stdio, stdin }),
                    },
                },
            },
        },
    }
}

/// Spawn options read from the options argument.
pub open spec fn spec_from_lua(
    v: OptionsValue,
    home: Option<Seq<char>>,
    cwd_exists: bool,
    family: Seq<char>,
) -> Result<OptionsView, SpawnErrorView> {
    match v {
        OptionsValue::Nil => Ok(default_options()),
        OptionsValue::Table(t) => spec_from_table(t, home, cwd_exists, family),
        OptionsValue::Other(n) => Err(
            SpawnErrorView::NotATable("Invalid spawn options - expected table, got "@ + n@),
        ),
    }
}

/// Finding a key scans the pairs in order.
proof fn lemma_key_index(m: Seq<(Seq<char>, Seq<char>)>, k: Seq<char>)
    ensures
        match key_index(m, k) {
            Some(i) => 0 <= i < m.len() && m[i].0 == k && forall|j: int| 0 <= j < i ==> m[j].0 != k,
            None => forall|j: int| 0 <= j < m.len() ==> m[j].0 != k,
        },
    decreases m.len(),
{
    if m.len() > 0 {
        let d = m.drop_last();
        lemma_key_index(d, k);
        assert forall|j: int| 0 <= j < d.len() implies d[j] == m[j] by {}
    }
}

/// Setting a key keeps keys unique.
proof fn lemma_env_insert_unique(m: Seq<(Seq<char>, Seq<char>)>, k: Seq<char>, v: Seq<char>)
    requires
        keys_unique(m),
    ensures
        keys_unique(env_insert(m, k, v)),
{
    lemma_key_index(m, k);
}

/// The pair view of a list of pairs after a push or an update.
proof fn lemma_pairs_view_push(s: Seq<(String, String)>, p: (String, String))
    ensures
        pairs_view(s.push(p)) == pairs_view(s).push((p.0@, p.1@)),
{
    assert(pairs_view(s.push(p)) =~= pairs_view(s).push((p.0@, p.1@)));
}

/// Sets an environment variable in a list of pairs.
fn env_insert_exec(m: &mut Vec<(String, String)>, k: String, v: String)
    requires
        keys_unique(pairs_view(old(m)@)),
    ensures
        pairs_view(final(m)@) == env_insert(pairs_view(old(m)@), k@, v@),
        keys_unique(pairs_view(final(m)@)),
{
    proof {
        lemma_key_index(pairs_view(m@), k@);
        lemma_env_insert_unique(pairs_view(m@), k@, v@);
    }
    let mut i: usize = 0;
    while i < m.len()
        invariant
            i <= m@.len(),
            m@ == old(m)@,
            keys_unique(pairs_view(m@)),
            forall|j: int| 0 <= j < i ==> pairs_view(m@)[j].0 != k@,
        decreases m@.len() - i,
    {
        assert(pairs_view(m@)[i as int].0 == m@[i as int].0@);
        if crate::text::chars_eq(
            str_chars(m[i].0.as_str()).as_slice(),
            str_chars(k.as_str()).as_slice(),
        ) {
            let ghost before = m@;
            proof {
                lemma_key_index(pairs_view(before), k@);
                lemma_env_insert_unique(pairs_view(before), k@, v@);
                assert(pairs_view(before)[i as int].0 == k@);
            }
            assert(key_index(pairs_view(before), k@) == Some(i as int));
            m.set(i, (k, v));
            assert(pairs_view(m@) =~= pairs_view(before).update(i as int, (k@, v@)));
            return;
        }
        i = i + 1;
    }
    proof {
        lemma_key_index(pairs_view(m@), k@);
        lemma_env_insert_unique(pairs_view(m@), k@, v@);
    }
    assert(key_index(pairs_view(m@), k@) is None);
    let ghost before = m@;
    m.push((k, v));
    proof {
        lemma_pairs_view_push(before, m@.last());
    }
}

/// The working directory that a `cwd` option names, with a leading `~`
/// component replaced by the home directory.
pub fn resolve_cwd(s: &str, home: Option<&str>) -> (r: Result<String, SpawnOptionsError>)
    ensures
        match r {
            Ok(p) => spec_resolve_cwd(s@, opt_str(home)) == Ok::<Seq<char>, SpawnErrorView>(p@),
            Err(e) => spec_resolve_cwd(s@, opt_str(home)) == Err::<Seq<char>, SpawnErrorView>(
                e.view(),
            ),
        },
{
    match path_strip_prefix(s, "~") {
        Some(rest) => match home {
            Some(h) => Ok(path_join(h, rest.as_str())),
            None => Err(
                SpawnOptionsError::Runtime(
                    "Invalid value for option 'cwd' - failed to get home directory".to_string(),
                ),
            ),
        },
        None => Ok(s.to_string()),
    }
}

/// The text of an optional string slice.
pub open spec fn opt_str(o: Option<&str>) -> Option<Seq<char>> {
    match o {
        Some(s) => Some(s@),
        None => None,
    }
}

/// The type name of a field's value.
fn field_type_name_exec(f: &OptionField) -> (r: String)
    ensures
        r@ == field_type_name(*f),
{
    match f {
        OptionField::Nil => "nil".to_string(),
        OptionField::Boolean(_) => "boolean".to_string(),
        OptionField::String(_) => "string".to_string(),
        OptionField::Table(_) => "table".to_string(),
        OptionField::Other(n) => n.clone(),
    }
}

/// The message for an option of the wrong type.
fn type_message_exec(option: &str, expected: &str, f: &OptionField) -> (r: String)
    ensures
        r@ == type_message(option@, expected@, field_type_name(*f)),
{
    let mut m = "Invalid type for option '".to_string();
    m.append(option);
    m.append("' - expected ");
    m.append(expected);
    m.append(", got '");
    m.append(field_type_name_exec(f).as_str());
    m.append("'");
    m
}

/// Reads the `cwd` option.
fn read_cwd(f: &OptionField, home: Option<&str>, cwd_exists: bool) -> (r: Result<
    Option<String>,
    SpawnOptionsError,
>)
    ensures
        match r {
            Ok(c) => spec_cwd(*f, opt_str(home), cwd_exists) == Ok::<
                Option<Seq<char>>,
                SpawnErrorView,
            >(opt_text(c)),
            Err(e) => spec_cwd(*f, opt_str(home), cwd_exists) == Err::<
                Option<Seq<char>>,
                SpawnErrorView,
            >(e.view()),
        },
{
    match f {
        OptionField::Nil => Ok(None),
        OptionField::String(b) => match string_from_utf8(b.clone()) {
            None => Err(SpawnOptionsError::NotUtf8(Utf8Option::Cwd)),
            Some(s) => match resolve_cwd(s.as_str(), home) {
                Ok(p) => if cwd_exists {
                    Ok(Some(p))
                } else {
                    Err(
                        SpawnOptionsError::Runtime(
                            "Invalid value for option 'cwd' - path does not exist".to_string(),
                        ),
                    )
                },
                Err(e) => Err(e),
            },
        },
        _ => Err(SpawnOptionsError::Runtime(type_message_exec("cwd", "string", f))),
    }
}

/// Reads the `env` option.
fn read_env(f: &OptionField) -> (r: Result<Vec<(String, String)>, SpawnOptionsError>)
    ensures
        match r {
            Ok(m) => spec_env(*f) == Ok::<Seq<(Seq<char>, Seq<char>)>, SpawnErrorView>(
                pairs_view(m@),
            ) && keys_unique(pairs_view(m@)),
            Err(e) => spec_env(*f) == Err::<Seq<(Seq<char>, Seq<char>)>, SpawnErrorView>(
                e.view(),
            ),
        },
{
    match f {
        OptionField::Nil => {
            let m: Vec<(String, String)> = Vec::new();
            assert(pairs_view(m@) =~= seq![]);
            Ok(m)
        },
        OptionField::Table(ps) => {
            let mut m: Vec<(String, String)> = Vec::new();
            let mut i: usize = 0;
            assert(pairs_view(m@) =~= seq![]);
            while i < ps.len()
                invariant
                    i <= ps@.len(),
                    envs_from_pairs(ps@.take(i as int)) == Some(pairs_view(m@)),
                    keys_unique(pairs_view(m@)),
                    *f == OptionField::Table(*ps),
                decreases ps@.len() - i,
            {
                let ghost t = ps@.take(i + 1);
                assert(t.drop_last() =~= ps@.take(i as int));
                assert(t.last() == ps@[i as int]);
                match &ps[i] {
                    None => {
                        assert(envs_from_pairs(t) is None);
                        proof {
                            lemma_envs_none_prefix(ps@, i + 1);
                        }
                        assert(spec_env(*f) == Err::<Seq<(Seq<char>, Seq<char>)>, SpawnErrorView>(SpawnErrorView::EnvNotStrings));
                        return Err(SpawnOptionsError::EnvNotStrings);
                    },
                    Some(p) => {
                        env_insert_exec(&mut m, p.0.clone(), p.1.clone());
                    },
                }
                i = i + 1;
            }
            assert(ps@.take(i as int) =~= ps@);
            assert(envs_from_pairs(ps@) == Some(pairs_view(m@)));
            assert(spec_env(*f) == Ok::<Seq<(Seq<char>, Seq<char>)>, SpawnErrorView>(pairs_view(m@)));
            Ok(m)
        },
        _ => Err(SpawnOptionsError::Runtime(type_message_exec("env", "table", f))),
    }
}

/// Once a prefix of the pairs fails, all of them fail.
proof fn lemma_envs_none_prefix(ps: Seq<Option<(String, String)>>, n: int)
    requires
        0 <= n <= ps.len(),
        envs_from_pairs(ps.take(n)) is None,
    ensures
        envs_from_pairs(ps) is None,
    decreases ps.len() - n,
{
    if n < ps.len() {
        assert(ps.take(n + 1).drop_last() =~= ps.take(n));
        lemma_envs_none_prefix(ps, n + 1);
    } else {
        assert(ps.take(n) =~= ps);
    }
}

/// Reads the `shell` option.
fn read_shell(f: &OptionField, family: &str) -> (r: Result<Option<String>, SpawnOptionsError>)
    ensures
        match r {
            Ok(c) => spec_shell(*f, family@) == Ok::<Option<Seq<char>>, SpawnErrorView>(
                opt_text(c),
            ),
            Err(e) => spec_shell(*f, family@) == Err::<Option<Seq<char>>, SpawnErrorView>(
                e.view(),
            ),
        },
{
    match f {
        OptionField::Nil => Ok(None),
        OptionField::String(b) => Ok(Some(string_from_utf8_lossy(b.as_slice()))),
        OptionField::Boolean(true) => {
            let fam = str_chars(family);
            if chars_eq_str(fam.as_slice(), "unix") {
                Ok(Some("/bin/sh".to_string()))
            } else if chars_eq_str(fam.as_slice(), "windows") {
                Ok(Some("powershell".to_string()))
            } else {
                Ok(None)
            }
        },
        _ => Err(SpawnOptionsError::Runtime(type_message_exec("shell", "'true' or 'string'", f))),
    }
}

/// Reads the `stdio` option.
fn read_stdio(f: &OptionField) -> (r: Result<bool, SpawnOptionsError>)
    ensures
        match r {
            Ok(c) => spec_stdio(*f) == Ok::<bool, SpawnErrorView>(c),
            Err(e) => spec_stdio(*f) == Err::<bool, SpawnErrorView>(e.view()),
        },
{
    match f {
        OptionField::Nil => Ok(false),
        OptionField::String(b) => match string_from_utf8(b.clone()) {
            None => Err(SpawnOptionsError::NotUtf8(Utf8Option::Stdio)),
            Some(s) => {
                let c = str_chars(s.as_str());
                if chars_eq_str(c.as_slice(), "inherit") {
                    Ok(true)
                } else if chars_eq_str(c.as_slice(), "default") {
                    Ok(false)
                } else {
                    let mut m =
                        "Invalid value for option 'stdio' - expected 'inherit' or 'default', got '".to_string();
                    m.append(s.as_str());
                    m.append("'");
                    Err(SpawnOptionsError::Runtime(m))
                }
            },
        },
        _ => Err(SpawnOptionsError::Runtime(type_message_exec("stdio", "'string'", f))),
    }
}

/// Reads the `stdin` option.
fn read_stdin(f: &OptionField) -> (r: Result<Option<Vec<u8>>, SpawnOptionsError>)
    ensures
        match r {
            Ok(c) => spec_stdin(*f) == Ok::<Option<Seq<u8>>, SpawnErrorView>(
                match c {
                    Some(b) => Some(b@),
                    None => None,
                },
            ),
            Err(e) => spec_stdin(*f) == Err::<Option<Seq<u8>>, SpawnErrorView>(e.view()),
        },
{
    match f {
        OptionField::Nil => Ok(None),
        OptionField::String(b) => Ok(Some(b.clone())),
        _ => Err(SpawnOptionsError::Runtime(type_message_exec("stdin", "'string'", f))),
    }
}

impl ProcessSpawnOptions {
    /// Options with nothing set.
    pub fn new() -> (r: Self)
        ensures
            r.view() == default_options(),
    {
        let r = ProcessSpawnOptions {
            cwd: None,
            envs: Vec::new(),
            shell: None,
            inherit_stdio: false,
            stdin: None,
        };
        assert(r.view().envs =~= seq![]);
        r
    }

    /// Reads the options argument of `process.spawn`: nil gives the
    /// defaults, a table is read option by option, and anything else is an
    /// error. `home` is the user's home directory if there is one,
    /// `cwd_exists` whether the directory that the `cwd` option names (see
    /// `resolve_cwd`) exists, and `family` the platform family (`unix` or
    /// `windows`), which picks the shell for `shell = true`.
    pub fn from_lua(value: &OptionsValue, home: Option<&str>, cwd_exists: bool, family: &str) -> (r:
        Result<Self, SpawnOptionsError>)
        ensures
            match r {
                Ok(o) => spec_from_lua(*value, opt_str(home), cwd_exists, family@) == Ok::<
                    OptionsView,
                    SpawnErrorView,
                >(o.view()) && keys_unique(o.view().envs),
                Err(e) => spec_from_lua(*value, opt_str(home), cwd_exists, family@) == Err::<
                    OptionsView,
                    SpawnErrorView,
                >(e.view()),
            },
    {
        match value {
            OptionsValue::Nil => Ok(Self::new()),
            OptionsValue::Other(n) => {
                let mut m = "Invalid spawn options - expected table, got ".to_string();
                m.append(n.as_str());
                Err(SpawnOptionsError::NotATable(m))
            },
            OptionsValue::Table(t) => {
                let cwd = match read_cwd(&t.cwd, home, cwd_exists) {
                    Ok(c) => c,
                    Err(e) => {
                        return Err(e);
                    },
                };
                let envs = match read_env(&t.env) {
                    Ok(m) => m,
                    Err(e) => {
                        return Err(e);
                    },
                };
                let shell = match read_shell(&t.shell, family) {
                    Ok(s) => s,
                    Err(e) => {
                        return Err(e);
                    },
                };
                let inherit_stdio = match read_stdio(&t.stdio) {
                    Ok(b) => b,
                    Err(e) => {
                        return Err(e);
                    },
                };
                let stdin = match read_stdin(&t.stdin) {
                    Ok(b) => b,
                    Err(e) => {
                        return Err(e);
                    },
                };
                Ok(ProcessSpawnOptions { cwd, envs, shell, inherit_stdio, stdin })
            },
        }
    }
}

// ---------------------------------------------------------------------
// Commands

/// What a child process is started with.
#[derive(Debug)]
pub struct SpawnCommand {
    /// The program to run.
    pub program: String,
    /// Its arguments, if any were given.
    pub args: Option<Vec<String>>,
    /// The directory to run in.
    pub cwd: Option<String>,
    /// Environment variables to set.
    pub envs: Vec<(String, String)>,
}

/// The texts of a list of strings.
pub open spec fn texts(v: Seq<String>) -> Seq<Seq<char>> {
    v.map_values(|s: String| s@)
}

/// The texts of an optional list of strings.
pub open spec fn opt_texts(v: Option<Vec<String>>) -> Option<Seq<Seq<char>>> {
    match v {
        Some(a) => Some(texts(a@)),
        None => None,
    }
}

/// The program that runs a command: the shell if one is set.
pub open spec fn command_program(shell: Option<Seq<char>>, program: Seq<char>) -> Seq<char> {
    match shell {
        Some(sh) => sh,
        None => program,
    }
}

/// The arguments of the program that runs a command: through a shell,
/// `-c` and the program and its arguments joined with spaces.
pub open spec fn command_args(
    shell: Option<Seq<char>>,
    program: Seq<char>,
    args: Option<Seq<Seq<char>>>,
) -> Option<Seq<Seq<char>>> {
    match shell {
        None => args,
        Some(_) => Some(
            seq![
                "-c"@,
                match args {
                    Some(a) => program + " "@ + join(a, " "@),
                    None => program,
                },
            ],
        ),
    }
}

/// Joins strings with spaces.
fn join_with_spaces(a: &Vec<String>) -> (r: String)
    ensures
        r@ == join(texts(a@), " "@),
{
    let mut r = String::new();
    let mut i: usize = 0;
    while i < a.len()
        invariant
            i <= a@.len(),
            r@ == join(texts(a@).take(i as int), " "@),
        decreases a@.len() - i,
    {
        let ghost before = r@;
        if i > 0 {
            r.append(" ");
        }
        r.append(a[i].as_str());
        proof {
            let t = texts(a@).take(i + 1);
            assert(t.drop_last() =~= texts(a@).take(i as int));
            assert(t.last() == a@[i as int]@);
            if i == 0 {
                assert(t =~= seq![a@[0]@]);
            }
        }
        i = i + 1;
    }
    assert(texts(a@).take(i as int) =~= texts(a@));
    r
}

impl ProcessSpawnOptions {
    /// The command that runs `program` with `args` under these options:
    /// through the shell if one is set, in the working directory and with
    /// the environment variables of the options.
    pub fn into_command(self, program: String, args: Option<Vec<String>>) -> (r: SpawnCommand)
        ensures
            r.program@ == command_program(self.view().shell, program@),
            opt_texts(r.args) == command_args(
                self.view().shell,
                program@,
                opt_texts(args),
            ),
            opt_text(r.cwd) == self.view().cwd,
            pairs_view(r.envs@) == self.view().envs,
    {
        let (prog, pargs) = match self.shell {
            None => (program, args),
            Some(shell) => {
                let joined = match &args {
                    Some(a) => {
                        let mut c = program.clone();
                        c.append(" ");
                        c.append(join_with_spaces(a).as_str());
                        c
                    },
                    None => program.clone(),
                };
                let mut shell_args: Vec<String> = Vec::new();
                shell_args.push("-c".to_string());
                shell_args.push(joined);
                proof {
                    assert(texts(shell_args@) =~= seq!["-c"@, shell_args@[1]@]);
                }
                (shell, Some(shell_args))
            },
        };
        SpawnCommand { program: prog, args: pargs, cwd: self.cwd, envs: self.envs }
    }
}

// ---------------------------------------------------------------------
// Results

/// The exit code of a finished process: its own code, or, when it has none
/// (it was ended by a signal), 1 if it wrote to its error stream and 0 if
/// not.
pub open spec fn spec_exit_code(code: Option<i32>, stderr: Seq<u8>) -> i32 {
    match code {
        Some(c) => c,
        None => if stderr.len() == 0 {
            0
        } else {
            1
        },
    }
}

/// What `process.spawn` returns for a finished process.
#[derive(Debug)]
pub struct SpawnResult {
    pub ok: bool,
    pub code: i32,
    pub stdout: Vec<u8>,
    pub stderr: Vec<u8>,
}

/// The exit code of a finished process.
pub fn exit_code(code: Option<i32>, stderr: &[u8]) -> (r: i32)
    ensures
        r == spec_exit_code(code, stderr@),
{
    match code {
        Some(c) => c,
        None => if stderr.len() == 0 {
            0
        } else {
            1
        },
    }
}

/// The result of a finished process: its exit code, whether that is 0, and
/// its output.
pub fn spawn_result(code: Option<i32>, stdout: Vec<u8>, stderr: Vec<u8>) -> (r: SpawnResult)
    ensures
        r.code == spec_exit_code(code, stderr@),
        r.ok == (r.code == 0),
        r.stdout@ == stdout@,
        r.stderr@ == stderr@,
{
    let c = exit_code(code, stderr.as_slice());
    SpawnResult { ok: c == 0, code: c, stdout, stderr }
}

// ---------------------------------------------------------------------
// Environment variables

/// Why setting an environment variable is refused, if it is: an empty key,
/// a key with `=` or NUL, or a value with NUL.
pub open spec fn spec_env_assignment_error(key: Seq<char>, value: Option<Seq<char>>) -> Option<
    Seq<char>,
> {
    if key.len() == 0 {
        Some("Key must not be empty"@)
    } else if key.contains('=') {
        Some("Key must not contain the equals character '='"@)
    } else if key.contains('\0') {
        Some("Key must not contain the NUL character"@)
    } else {
        match value {
            Some(v) => if v.contains('\0') {
                Some("Value must not contain the NUL character"@)
            } else {
                None
            },
            None => None,
        }
    }
}

/// Whether a character occurs in a text.
fn contains_char(s: &str, c: char) -> (r: bool)
    ensures
        r == s@.contains(c),
{
    let chars = str_chars(s);
    let found = find_char_exec(chars.as_slice(), c);
    proof {
        crate::text::lemma_find_char(s@, c);
    }
    match found {
        Some(k) => {
            assert(s@[k as int] == c);
            true
        },
        None => false,
    }
}

/// Checks an assignment to `process.env`: `value` is the new value, or
/// `None` to remove the variable. An empty key, a key with `=` or NUL, and
/// a value with NUL are refused, as setting them would fail.
pub fn check_env_assignment(key: &str, value: Option<&str>) -> (r: Result<(), String>)
    ensures
        match r {
            Ok(_) => spec_env_assignment_error(key@, opt_str(value)) is None,
            Err(m) => spec_env_assignment_error(key@, opt_str(value)) == Some(m@),
        },
{
    if str_chars(key).len() == 0 {
        Err("Key must not be empty".to_string())
    } else if contains_char(key, '=') {
        Err("Key must not contain the equals character '='".to_string())
    } else if contains_char(key, '\0') {
        Err("Key must not contain the NUL character".to_string())
    } else {
        match value {
            Some(v) => if contains_char(v, '\0') {
                Err("Value must not contain the NUL character".to_string())
            } else {
                Ok(())
            },
            None => Ok(()),
        }
    }
}

} // verus!
