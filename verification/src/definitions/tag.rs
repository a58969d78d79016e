//! Documentation tags, such as `@class` or `@param`, read from tag items.

use vstd::prelude::*;

use super::item::{opt_view, DefinitionsItem, DefinitionsItemKind, ItemView};
use crate::text::{ascii_lower, chars_eq_str, chars_to_string, str_chars, to_ascii_lower, trim, trim_chars};

verus! {

/// A documentation tag.
#[derive(Debug)]
pub enum DefinitionsItemTag {
    Class(String),
    Type(String),
    Within(String),
    Param((String, String)),
    Return(String),
    MustUse,
    ReadOnly,
    ReadWrite,
}

/// The mathematical value of a documentation tag.
pub ghost enum TagView {
    Class(Seq<char>),
    Type(Seq<char>),
    Within(Seq<char>),
    Param(Seq<char>, Seq<char>),
    Return(Seq<char>),
    MustUse,
    ReadOnly,
    ReadWrite,
}

/// What reading a tag from an item gives: the tag named by the item's
/// trimmed, lowercased name, with the item's value (and, for `param`, its
/// meta text), or the error that says what is missing.
pub open spec fn spec_tag_from_item(v: ItemView) -> Result<TagView, Seq<char>> {
    match v.name {
        None => Err("Doc item has no name"@),
        Some(n) => {
            let k = ascii_lower(trim(n));
            if k == "class"@ {
                match v.value {
                    Some(x) => Ok(TagView::Class(x)),
                    None => Err("Missing class name for class tag"@),
                }
            } else if k == "type"@ {
                match v.value {
                    Some(x) => Ok(TagView::Class(x)),
                    None => Err("Missing type name for type tag"@),
                }
            } else if k == "within"@ {
                match v.value {
                    Some(x) => Ok(TagView::Within(x)),
                    None => Err("Missing class name for within tag"@),
                }
            } else if k == "param"@ {
                match v.meta {
                    None => Err("Missing param name for param tag"@),
                    Some(m) => match v.value {
                        Some(x) => Ok(TagView::Param(m, x)),
                        None => Err("Missing param value for param tag"@),
                    },
                }
            } else if k == "return"@ {
                match v.value {
                    Some(x) => Ok(TagView::Return(x)),
                    None => Err("Missing description for return tag"@),
                }
            } else if k == "must_use"@ {
                Ok(TagView::MustUse)
            } else if k == "read_only"@ {
                Ok(TagView::ReadOnly)
            } else if k == "read_write"@ {
                Ok(TagView::ReadWrite)
            } else {
                Err("Unknown docs tag: '"@ + k + "'"@)
            }
        },
    }
}

fn value_or(v: &Option<String>, missing: &str) -> (r: Result<String, String>)
    ensures
        match r {
            Ok(s) => opt_view(*v) == Some(s@),
            Err(e) => v is None && e@ == missing@,
        },
{
    match v {
        Some(s) => Ok(s.clone()),
        None => Err(missing.to_string()),
    }
}

impl DefinitionsItemTag {
    /// The mathematical value of the tag.
    pub open spec fn view(&self) -> TagView {
        match self {
            DefinitionsItemTag::Class(s) => TagView::Class(s@),
            DefinitionsItemTag::Type(s) => TagView::Type(s@),
            DefinitionsItemTag::Within(s) => TagView::Within(s@),
            DefinitionsItemTag::Param(p) => TagView::Param(p.0@, p.1@),
            DefinitionsItemTag::Return(s) => TagView::Return(s@),
            DefinitionsItemTag::MustUse => TagView::MustUse,
            DefinitionsItemTag::ReadOnly => TagView::ReadOnly,
            DefinitionsItemTag::ReadWrite => TagView::ReadWrite,
        }
    }

    /// Whether this is a class tag.
    pub fn is_class(&self) -> (r: bool)
        ensures
            r == (self is Class),
    {
        match self {
            DefinitionsItemTag::Class(_) => true,
            _ => false,
        }
    }

    /// Whether this is a type tag; type tags are read as class tags, so
    /// this holds of class tags.
    pub fn is_type(&self) -> (r: bool)
        ensures
            r == (self is Class),
    {
        match self {
            DefinitionsItemTag::Class(_) => true,
            _ => false,
        }
    }

    /// Whether this is a within tag.
    pub fn is_within(&self) -> (r: bool)
        ensures
            r == (self is Within),
    {
        match self {
            DefinitionsItemTag::Within(_) => true,
            _ => false,
        }
    }

    /// Whether this is a param tag.
    pub fn is_param(&self) -> (r: bool)
        ensures
            r == (self is Param),
    {
        match self {
            DefinitionsItemTag::Param(_) => true,
            _ => false,
        }
    }

    /// Whether this is a return tag.
    pub fn is_return(&self) -> (r: bool)
        ensures
            r == (self is Return),
    {
        match self {
            DefinitionsItemTag::Return(_) => true,
            _ => false,
        }
    }

    /// Whether this is a must-use tag.
    pub fn is_must_use(&self) -> (r: bool)
        ensures
            r == (self is MustUse),
    {
        match self {
            DefinitionsItemTag::MustUse => true,
            _ => false,
        }
    }

    /// Whether this is a read-only tag.
    pub fn is_read_only(&self) -> (r: bool)
        ensures
            r == (self is ReadOnly),
    {
        match self {
            DefinitionsItemTag::ReadOnly => true,
            _ => false,
        }
    }

    /// Whether this is a read-write tag.
    pub fn is_read_write(&self) -> (r: bool)
        ensures
            r == (self is ReadWrite),
    {
        match self {
            DefinitionsItemTag::ReadWrite => true,
            _ => false,
        }
    }

    /// Reads the tag that an item describes.
    pub fn try_from(value: &DefinitionsItem) -> (r: Result<Self, String>)
        ensures
            match r {
                Ok(t) => spec_tag_from_item(value.view()) == Ok::<TagView, Seq<char>>(t.view()),
                Err(e) => spec_tag_from_item(value.view()) == Err::<TagView, Seq<char>>(e@),
            },
    {
        let name = match value.get_name() {
            Some(n) => n,
            None => return Err("Doc item has no name".to_string()),
        };
        let k = to_ascii_lower(trim_chars(str_chars(name).as_slice()).as_slice());
        let ks = k.as_slice();
        if chars_eq_str(ks, "class") {
            match value_or(&value.value, "Missing class name for class tag") {
                Ok(x) => Ok(DefinitionsItemTag::Class(x)),
                Err(e) => Err(e),
            }
        } else if chars_eq_str(ks, "type") {
            match value_or(&value.value, "Missing type name for type tag") {
                Ok(x) => Ok(DefinitionsItemTag::Class(x)),
                Err(e) => Err(e),
            }
        } else if chars_eq_str(ks, "within") {
            match value_or(&value.value, "Missing class name for within tag") {
                Ok(x) => Ok(DefinitionsItemTag::Within(x)),
                Err(e) => Err(e),
            }
        } else if chars_eq_str(ks, "param") {
            let m = match value_or(&value.meta, "Missing param name for param tag") {
                Ok(m) => m,
                Err(e) => return Err(e),
            };
            match value_or(&value.value, "Missing param value for param tag") {
                Ok(x) => Ok(DefinitionsItemTag::Param((m, x))),
                Err(e) => Err(e),
            }
        } else if chars_eq_str(ks, "return") {
            match value_or(&value.value, "Missing description for return tag") {
                Ok(x) => Ok(DefinitionsItemTag::Return(x)),
                Err(e) => Err(e),
            }
        } else if chars_eq_str(ks, "must_use") {
            Ok(DefinitionsItemTag::MustUse)
        } else if chars_eq_str(ks, "read_only") {
            Ok(DefinitionsItemTag::ReadOnly)
        } else if chars_eq_str(ks, "read_write") {
            Ok(DefinitionsItemTag::ReadWrite)
        } else {
            let mut e = "Unknown docs tag: '".to_string();
            let kt = chars_to_string(ks);
            e.append(kt.as_str());
            e.append("'");
            Err(e)
        }
    }
}

/// How many of the kind tests (`is_class`, `is_within`, `is_param`,
/// `is_return`, `is_must_use`, `is_read_only`, `is_read_write`) hold of a
/// tag.
pub open spec fn kind_tests_holding(t: DefinitionsItemTag) -> int {
    (if t is Class { 1int } else { 0int }) + (if t is Within { 1int } else { 0int }) + (if t is Param {
        1int
    } else {
        0int
    }) + (if t is Return { 1int } else { 0int }) + (if t is MustUse { 1int } else { 0int }) + (
    if t is ReadOnly { 1int } else { 0int }) + (if t is ReadWrite { 1int } else { 0int })
}

/// Exactly one kind test holds of a tag, except of a type tag, of which
/// none does; `is_type` holds exactly where `is_class` does.
pub proof fn lemma_tag_kinds(t: DefinitionsItemTag)
    ensures
        t is Type ==> kind_tests_holding(t) == 0,
        !(t is Type) ==> kind_tests_holding(t) == 1,
{
}

} // verus!
