//! Interactive prompts of the standard I/O library: reading the arguments
//! of `stdio.prompt`, and the values that a choice gives back.

use vstd::prelude::*;

use crate::process::opt_text;
use crate::text::{chars_eq_str, chars_to_string, is_ascii_alpha, lower_char, str_chars};

verus! {

/// A kind of prompt.
#[derive(Debug, Clone, Copy, PartialEq, Eq, Structural)]
pub enum PromptKind {
    Text,
    Confirm,
    Select,
    MultiSelect,
}

/// The name of a kind of prompt.
pub open spec fn kind_name(k: PromptKind) -> Seq<char> {
    match k {
        PromptKind::Text => "Text"@,
        PromptKind::Confirm => "Confirm"@,
        PromptKind::Select => "Select"@,
        PromptKind::MultiSelect => "MultiSelect"@,
    }
}

/// The ASCII letters of a text, lowercased; everything else is dropped.
pub open spec fn letters_lower(s: Seq<char>) -> Seq<char>
    decreases s.len(),
{
    if s.len() == 0 {
        seq![]
    } else {
        letters_lower(s.drop_last()) + if is_ascii_alpha(s.last()) {
            seq![lower_char(s.last())]
        } else {
            seq![]
        }
    }
}

/// The kind that a name names, once only its lowercased ASCII letters are
/// kept, or the message for a name that names none.
pub open spec fn spec_kind_from_name(s: Seq<char>) -> Result<PromptKind, Seq<char>> {
    let l = letters_lower(s);
    if l == "text"@ {
        Ok(PromptKind::Text)
    } else if l == "confirm"@ {
        Ok(PromptKind::Confirm)
    } else if l == "select"@ {
        Ok(PromptKind::Select)
    } else if l == "multiselect"@ {
        Ok(PromptKind::MultiSelect)
    } else {
        Err(
            "Invalid prompt kind '"@ + l
                + "', valid kinds are:\nText, Confirm, Select, MultiSelect"@,
        )
    }
}

/// The lowercased ASCII letters of a text.
fn letters_lower_exec(s: &str) -> (r: Vec<char>)
    ensures
        r@ == letters_lower(s@),
{
    let chars = str_chars(s);
    let mut r: Vec<char> = Vec::new();
    let mut i: usize = 0;
    while i < chars.len()
        invariant
            i <= chars@.len(),
            r@ == letters_lower(chars@.take(i as int)),
        decreases chars@.len() - i,
    {
        let c = chars[i];
        let ghost before = r@;
        if ('a' <= c && c <= 'z') || ('A' <= c && c <= 'Z') {
            r.push(crate::text::to_lower_char(c));
        }
        assert(chars@.take(i + 1).drop_last() =~= chars@.take(i as int));
        assert(r@ =~= letters_lower(chars@.take(i + 1)));
        i = i + 1;
    }
    assert(chars@.take(i as int) =~= chars@);
    r
}

impl PromptKind {
    /// Every kind, in declaration order.
    pub fn get_all() -> (r: Vec<Self>)
        ensures
            r@ == seq![
                PromptKind::Text,
                PromptKind::Confirm,
                PromptKind::Select,
                PromptKind::MultiSelect,
            ],
    {
        let r = vec![PromptKind::Text, PromptKind::Confirm, PromptKind::Select, PromptKind::MultiSelect];
        assert(r@ =~= seq![
            PromptKind::Text,
            PromptKind::Confirm,
            PromptKind::Select,
            PromptKind::MultiSelect,
        ]);
        r
    }

    /// The kind of prompt that a script gets when it names none.
    pub fn default() -> (r: Self)
        ensures
            r == PromptKind::Text,
    {
        PromptKind::Text
    }

    /// The name of the kind: `Text`, `Confirm`, `Select` or `MultiSelect`.
    pub fn name(&self) -> (r: String)
        ensures
            r@ == kind_name(*self),
    {
        match self {
            PromptKind::Text => "Text".to_string(),
            PromptKind::Confirm => "Confirm".to_string(),
            PromptKind::Select => "Select".to_string(),
            PromptKind::MultiSelect => "MultiSelect".to_string(),
        }
    }

    /// The kind that a name names, permissively: only its ASCII letters
    /// count, in any case, so `multi select` and `Multi_Select` name
    /// `MultiSelect`.
    pub fn from_name(s: &str) -> (r: Result<Self, String>)
        ensures
            match r {
                Ok(k) => spec_kind_from_name(s@) == Ok::<PromptKind, Seq<char>>(k),
                Err(m) => spec_kind_from_name(s@) == Err::<PromptKind, Seq<char>>(m@),
            },
    {
        let l = letters_lower_exec(s);
        let c = l.as_slice();
        if chars_eq_str(c, "text") {
            Ok(PromptKind::Text)
        } else if chars_eq_str(c, "confirm") {
            Ok(PromptKind::Confirm)
        } else if chars_eq_str(c, "select") {
            Ok(PromptKind::Select)
        } else if chars_eq_str(c, "multiselect") {
            Ok(PromptKind::MultiSelect)
        } else {
            let mut m = "Invalid prompt kind '".to_string();
            m.append(chars_to_string(c).as_str());
            m.append("', valid kinds are:\nText, Confirm, Select, MultiSelect");
            Err(m)
        }
    }
}

/// Every kind is found again by its own name.
pub proof fn lemma_prompt_kind_name_roundtrip(k: PromptKind)
    ensures
        spec_kind_from_name(kind_name(k)) == Ok::<PromptKind, Seq<char>>(k),
{
    reveal_strlit("Text");
    reveal_strlit("Confirm");
    reveal_strlit("Select");
    reveal_strlit("MultiSelect");
    reveal_strlit("text");
    reveal_strlit("confirm");
    reveal_strlit("select");
    reveal_strlit("multiselect");
    reveal_with_fuel(letters_lower, 12);
    assert(letters_lower("Text"@) =~= "text"@);
    assert(letters_lower("Confirm"@) =~= "confirm"@);
    assert(letters_lower("Select"@) =~= "select"@);
    assert(letters_lower("MultiSelect"@) =~= "multiselect"@);
}

/// The third argument of `stdio.prompt`, as it converts.
#[derive(Debug)]
pub enum PromptDefault {
    /// Missing or nil.
    Nil,
    /// A default answer for a confirmation.
    Boolean(bool),
    /// A default text, or `None` if the string does not convert.
    String(Option<String>),
    /// The options to choose from, or `None` if the table does not convert
    /// to a list of strings.
    Table(Option<Vec<String>>),
    /// Any other value, by its type name.
    Other(String),
}

/// What the arguments of `stdio.prompt` give.
#[derive(Debug)]
pub struct PromptOptions {
    pub kind: PromptKind,
    pub text: Option<String>,
    pub default_string: Option<String>,
    pub default_bool: Option<bool>,
    pub options: Option<Vec<String>>,
}

/// Why the arguments of `stdio.prompt` are refused.
#[derive(Debug)]
pub enum PromptOptionsError {
    /// An argument does not convert to the type it needs.
    Conversion,
    /// An argument is wrong; the values are the type name of what was
    /// given and the message.
    Invalid { from: String, message: String },
}

/// The mathematical value of prompt options.
pub ghost struct PromptOptionsView {
    pub kind: PromptKind,
    pub text: Option<Seq<char>>,
    pub default_string: Option<Seq<char>>,
    pub default_bool: Option<bool>,
    pub options: Option<Seq<Seq<char>>>,
}

/// The mathematical value of a refusal.
pub ghost enum PromptErrorView {
    Conversion,
    Invalid { from: Seq<char>, message: Seq<char> },
}

/// The texts of a list of strings.
pub open spec fn string_texts(v: Seq<String>) -> Seq<Seq<char>> {
    v.map_values(|s: String| s@)
}

impl PromptOptions {
    /// The mathematical value of the options.
    pub open spec fn view(&self) -> PromptOptionsView {
        PromptOptionsView {
            kind: self.kind,
            text: opt_text(self.text),
            default_string: opt_text(self.default_string),
            default_bool: self.default_bool,
            options: match self.options {
                Some(o) => Some(string_texts(o@)),
                None => None,
            },
        }
    }
}

impl PromptOptionsError {
    /// The mathematical value of the refusal.
    pub open spec fn view(&self) -> PromptErrorView {
        match self {
            PromptOptionsError::Conversion => PromptErrorView::Conversion,
            PromptOptionsError::Invalid { from, message } => PromptErrorView::Invalid {
                from: from@,
                message: message@,
            },
        }
    }
}

/// The options that the arguments of `stdio.prompt` give: the kind (text
/// when missing), the text (when given, it must convert to a string), and a
/// default or the options to choose from. A confirmation needs a text; a
/// selection needs options.
pub open spec fn spec_prompt_options(
    kind: PromptKind,
    text: Option<Option<String>>,
    third: PromptDefault,
) -> Result<PromptOptionsView, PromptErrorView> {
    match text {
        Some(None) => Err(PromptErrorView::Conversion),
        _ => {
            let t = match text {
                Some(Some(s)) => Some(s@),
                _ => None,
            };
            match third {
                PromptDefault::String(None) => Err(PromptErrorView::Conversion),
                PromptDefault::Table(None) => Err(PromptErrorView::Conversion),
                PromptDefault::Other(n) => Err(
                    PromptErrorView::Invalid {
                        from: n@,
                        message: "Argument #3 must be a boolean, table, or nil"@,
                    },
                ),
                _ => {
                    let default_bool = match third {
                        PromptDefault::Boolean(b) => Some(b),
                        _ => None,
                    };
                    let default_string = match third {
                        PromptDefault::String(Some(s)) => Some(s@),
                        _ => None,
                    };
                    let options = match third {
                        PromptDefault::Table(Some(o)) => Some(string_texts(o@)),
                        _ => None,
                    };
                    if kind == PromptKind::Confirm && t is None {
                        Err(
                            PromptErrorView::Invalid {
                                from: "nil"@,
                                message: "Argument #2 missing or nil"@,
                            },
                        )
                    } else if (kind == PromptKind::Select || kind == PromptKind::MultiSelect)
                        && options is None {
                        Err(
                            PromptErrorView::Invalid {
                                from: "nil"@,
                                message: "Argument #3 missing or nil"@,
                            },
                        )
                    } else {
                        Ok(PromptOptionsView { kind, text: t, default_string, default_bool, options })
                    }
                },
            }
        },
    }
}

impl PromptOptions {
    /// Reads the arguments of `stdio.prompt`, the kind already read: `text`
    /// is `None` when the argument is missing and `Some(None)` when it does
    /// not convert to a string.
    pub fn from_lua_multi(kind: PromptKind, text: Option<Option<String>>, third: PromptDefault) -> (r:
        Result<Self, PromptOptionsError>)
        ensures
            match r {
                Ok(o) => spec_prompt_options(kind, text, third) == Ok::<
                    PromptOptionsView,
                    PromptErrorView,
                >(o.view()),
                Err(e) => spec_prompt_options(kind, text, third) == Err::<
                    PromptOptionsView,
                    PromptErrorView,
                >(e.view()),
            },
    {
        let t = match text {
            Some(None) => {
                return Err(PromptOptionsError::Conversion);
            },
            Some(Some(s)) => Some(s),
            None => None,
        };
        let (default_bool, default_string, options) = match third {
            PromptDefault::Nil => (None, None, None),
            PromptDefault::Boolean(b) => (Some(b), None, None),
            PromptDefault::String(Some(s)) => (None, Some(s), None),
            PromptDefault::Table(Some(o)) => (None, None, Some(o)),
            PromptDefault::String(None) => {
                return Err(PromptOptionsError::Conversion);
            },
            PromptDefault::Table(None) => {
                return Err(PromptOptionsError::Conversion);
            },
            PromptDefault::Other(n) => {
                return Err(
                    PromptOptionsError::Invalid {
                        from: n,
                        message: "Argument #3 must be a boolean, table, or nil".to_string(),
                    },
                );
            },
        };
        if kind == PromptKind::Confirm && t.is_none() {
            return Err(
                PromptOptionsError::Invalid {
                    from: "nil".to_string(),
                    message: "Argument #2 missing or nil".to_string(),
                },
            );
        }
        if (kind == PromptKind::Select || kind == PromptKind::MultiSelect) && options.is_none() {
            return Err(
                PromptOptionsError::Invalid {
                    from: "nil".to_string(),
                    message: "Argument #3 missing or nil".to_string(),
                },
            );
        }
        Ok(PromptOptions { kind, text: t, default_string, default_bool, options })
    }
}

/// What a prompt gives back.
#[derive(Debug, Clone, PartialEq, Eq)]
pub enum PromptResult {
    String(String),
    Boolean(bool),
    /// A chosen option, counted from 1.
    Index(usize),
    /// The chosen options, counted from 1.
    Indices(Vec<usize>),
    Nothing,
}

/// What a selection gives back: the chosen option counted from 1, or
/// nothing when it was cancelled.
pub fn select_result(chosen: Option<usize>) -> (r: PromptResult)
    requires
        chosen matches Some(i) ==> i < usize::MAX,
    ensures
        match chosen {
            Some(i) => r == PromptResult::Index((i + 1) as usize),
            None => r == PromptResult::Nothing,
        },
{
    match chosen {
        Some(i) => PromptResult::Index(i + 1),
        None => PromptResult::Nothing,
    }
}

/// What a multiple selection gives back: the chosen options counted from 1,
/// or nothing when it was cancelled.
pub fn multi_select_result(chosen: Option<Vec<usize>>) -> (r: PromptResult)
    requires
        chosen matches Some(v) ==> forall|k: int| 0 <= k < v.len() ==> v[k] < usize::MAX,
    ensures
        match chosen {
            Some(v) => r matches PromptResult::Indices(w) && w.len() == v.len() && forall|k: int|
                0 <= k < v.len() ==> w[k] == v[k] + 1,
            None => r == PromptResult::Nothing,
        },
{
    match chosen {
        None => PromptResult::Nothing,
        Some(v) => {
            let mut w: Vec<usize> = Vec::new();
            let mut i: usize = 0;
            while i < v.len()
                invariant
                    i <= v@.len(),
                    w@.len() == i,
                    forall|k: int| 0 <= k < v@.len() ==> v@[k] < usize::MAX,
                    forall|k: int| 0 <= k < i ==> w@[k] == v@[k] + 1,
                decreases v@.len() - i,
            {
                w.push(v[i] + 1);
                i = i + 1;
            }
            PromptResult::Indices(w)
        },
    }
}

/// The first argument of `stdio.prompt`.
#[derive(Debug)]
pub enum PromptKindInput {
    Nil,
    /// A string, as its bytes.
    String(Vec<u8>),
    /// Any other value.
    Other,
}

/// Why the first argument of `stdio.prompt` is refused.
#[derive(Debug)]
pub enum PromptKindError {
    /// The string is not UTF-8.
    NotUtf8,
    /// The string names no kind; the value is the message.
    Invalid(String),
    /// The value is neither nil nor a string.
    NotAString,
}

impl PromptKind {
    /// Reads the first argument of `stdio.prompt`: nil gives a text prompt,
    /// a string names the kind.
    pub fn from_lua(value: &PromptKindInput) -> (r: Result<Self, PromptKindError>)
        ensures
            match value {
                PromptKindInput::Nil => r == Ok::<PromptKind, PromptKindError>(PromptKind::Text),
                PromptKindInput::String(b) => if vstd::utf8::valid_utf8(b@) {
                    match r {
                        Ok(k) => spec_kind_from_name(vstd::utf8::decode_utf8(b@)) == Ok::<
                            PromptKind,
                            Seq<char>,
                        >(k),
                        Err(PromptKindError::Invalid(m)) => spec_kind_from_name(
                            vstd::utf8::decode_utf8(b@),
                        ) == Err::<PromptKind, Seq<char>>(m@),
                        Err(_) => false,
                    }
                } else {
                    r matches Err(PromptKindError::NotUtf8)
                },
                PromptKindInput::Other => r matches Err(PromptKindError::NotAString),
            },
    {
        match value {
            PromptKindInput::Nil => Ok(PromptKind::Text),
            PromptKindInput::String(b) => match crate::text::string_from_utf8(b.clone()) {
                Some(s) => match PromptKind::from_name(s.as_str()) {
                    Ok(k) => Ok(k),
                    Err(m) => Err(PromptKindError::Invalid(m)),
                },
                None => Err(PromptKindError::NotUtf8),
            },
            PromptKindInput::Other => Err(PromptKindError::NotAString),
        }
    }
}

} // verus!
