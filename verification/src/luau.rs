//! The `luau` library: the options of compiling and loading source, and
//! what the compiler's output means.

use vstd::prelude::*;

use crate::text::{str_chars, trim_start};
use vstd::utf8::{decode_utf8, valid_utf8};

verus! {

/// The name that loaded chunks get when none is given.
pub open spec fn default_debug_name() -> Seq<char> {
    "luau.load(...)"@
}

/// Options of compiling source to bytecode.
#[derive(Debug, Clone, Copy, PartialEq, Eq, Structural)]
pub struct CompileOptions {
    pub optimization_level: u8,
    pub coverage_level: u8,
    pub debug_level: u8,
}

/// The options argument of `luau.compile`.
#[derive(Debug)]
pub enum CompileOptionsInput {
    Nil,
    /// A table, with its `optimizationLevel`, `coverageLevel` and
    /// `debugLevel` fields.
    Table { optimization_level: Option<u8>, coverage_level: Option<u8>, debug_level: Option<u8> },
    /// Any other value, by its type name.
    Other(String),
}

/// An options argument of the wrong type: the target type and the message.
#[derive(Debug)]
pub struct OptionsTypeError {
    pub to: String,
    pub message: String,
}

impl CompileOptions {
    /// The default options: optimization level 1, coverage level 0, debug
    /// level 1.
    pub fn default() -> (r: Self)
        ensures
            r == (CompileOptions { optimization_level: 1, coverage_level: 0, debug_level: 1 }),
    {
        CompileOptions { optimization_level: 1, coverage_level: 0, debug_level: 1 }
    }

    /// Reads the options argument of `luau.compile`: nil gives the
    /// defaults, a table sets the levels it has.
    pub fn from_lua(value: &CompileOptionsInput) -> (r: Result<Self, OptionsTypeError>)
        ensures
            match value {
                CompileOptionsInput::Nil => r == Ok::<CompileOptions, OptionsTypeError>(
                    CompileOptions { optimization_level: 1, coverage_level: 0, debug_level: 1 },
                ),
                CompileOptionsInput::Table { optimization_level, coverage_level, debug_level } => r
                    == Ok::<CompileOptions, OptionsTypeError>(
                    CompileOptions {
                        optimization_level: match optimization_level {
                            Some(l) => *l,
                            None => 1,
                        },
                        coverage_level: match coverage_level {
                            Some(l) => *l,
                            None => 0,
                        },
                        debug_level: match debug_level {
                            Some(l) => *l,
                            None => 1,
                        },
                    },
                ),
                CompileOptionsInput::Other(n) => r matches Err(e) && e.to@ == "CompileOptions"@
                    && e.message@ == "Invalid compile options - expected table, got "@ + n@,
            },
    {
        match value {
            CompileOptionsInput::Nil => Ok(Self::default()),
            CompileOptionsInput::Table { optimization_level, coverage_level, debug_level } => Ok(
                CompileOptions {
                    optimization_level: match optimization_level {
                        Some(l) => *l,
                        None => 1,
                    },
                    coverage_level: match coverage_level {
                        Some(l) => *l,
                        None => 0,
                    },
                    debug_level: match debug_level {
                        Some(l) => *l,
                        None => 1,
                    },
                },
            ),
            CompileOptionsInput::Other(n) => {
                let mut m = "Invalid compile options - expected table, got ".to_string();
                m.append(n.as_str());
                Err(OptionsTypeError { to: "CompileOptions".to_string(), message: m })
            },
        }
    }
}

/// What compiling gave: bytecode, or, when the first byte is 0, the
/// compile error's message as the text of the whole output.
pub fn compile_result(bytecode: Vec<u8>) -> (r: Result<Vec<u8>, String>)
    requires
        bytecode@.len() > 0,
        bytecode@[0] == 0 ==> valid_utf8(bytecode@),
    ensures
        bytecode@[0] != 0 ==> (r matches Ok(b) && b@ == bytecode@),
        bytecode@[0] == 0 ==> (r matches Err(m) && m@ == decode_utf8(bytecode@)),
{
    if bytecode[0] == 0 {
        match crate::text::string_from_utf8(bytecode) {
            Some(m) => Err(m),
            None => Err(String::new()),
        }
    } else {
        Ok(bytecode)
    }
}

/// Options of loading source as a function.
#[derive(Debug)]
pub struct LoadOptions {
    /// The name of the chunk in tracebacks.
    pub debug_name: String,
}

/// The options argument of `luau.load`.
#[derive(Debug)]
pub enum LoadOptionsInput {
    Nil,
    /// A table, with its `debugName` field.
    Table { debug_name: Option<String> },
    /// A string: the debug name, as its bytes.
    String(Vec<u8>),
    /// Any other value, by its type name.
    Other(String),
}

/// Why the options argument of `luau.load` is refused.
#[derive(Debug)]
pub enum LoadOptionsError {
    /// The string is not UTF-8.
    NotUtf8,
    /// The value has the wrong type.
    Type(OptionsTypeError),
}

impl LoadOptions {
    /// The default options: the name `luau.load(...)`.
    pub fn default() -> (r: Self)
        ensures
            r.debug_name@ == default_debug_name(),
    {
        LoadOptions { debug_name: "luau.load(...)".to_string() }
    }

    /// Reads the options argument of `luau.load`: nil gives the default
    /// name, a table its `debugName` or the default, a string is the name.
    pub fn from_lua(value: &LoadOptionsInput) -> (r: Result<Self, LoadOptionsError>)
        ensures
            match value {
                LoadOptionsInput::Nil => r matches Ok(o) && o.debug_name@ == default_debug_name(),
                LoadOptionsInput::Table { debug_name } => r matches Ok(o) && o.debug_name@ == (
                match debug_name {
                    Some(n) => n@,
                    None => default_debug_name(),
                }),
                LoadOptionsInput::String(b) => if valid_utf8(b@) {
                    r matches Ok(o) && o.debug_name@ == decode_utf8(b@)
                } else {
                    r matches Err(LoadOptionsError::NotUtf8)
                },
                LoadOptionsInput::Other(n) => r matches Err(LoadOptionsError::Type(e)) && e.to@
                    == "LoadOptions"@ && e.message@
                    == "Invalid load options - expected string or table, got "@ + n@,
            },
    {
        match value {
            LoadOptionsInput::Nil => Ok(Self::default()),
            LoadOptionsInput::Table { debug_name } => match debug_name {
                Some(n) => Ok(LoadOptions { debug_name: n.clone() }),
                None => Ok(Self::default()),
            },
            LoadOptionsInput::String(b) => match crate::text::string_from_utf8(b.clone()) {
                Some(s) => Ok(LoadOptions { debug_name: s }),
                None => Err(LoadOptionsError::NotUtf8),
            },
            LoadOptionsInput::Other(n) => {
                let mut m = "Invalid load options - expected string or table, got ".to_string();
                m.append(n.as_str());
                Err(LoadOptionsError::Type(OptionsTypeError { to: "LoadOptions".to_string(), message: m }))
            },
        }
    }
}

/// The source that `luau.load` loads: leading whitespace removed.
pub fn load_source_text(source: &str) -> (r: Vec<char>)
    ensures
        r@ == trim_start(source@),
{
    let chars = str_chars(source);
    let mut i: usize = 0;
    assert(chars@.skip(0) =~= chars@);
    while i < chars.len() && crate::text::is_whitespace(chars[i])
        invariant
            i <= chars@.len(),
            trim_start(chars@) == trim_start(chars@.skip(i as int)),
        decreases chars@.len() - i,
    {
        assert(chars@.skip(i as int).drop_first() =~= chars@.skip(i + 1));
        i = i + 1;
    }
    let n = chars.len();
    let r = crate::text::sub_chars(chars.as_slice(), i, n);
    assert(r@ =~= chars@.skip(i as int));
    r
}

} // verus!
