//! The tree of all items in type definitions, under one root item.

use vstd::prelude::*;

use super::builder::DefinitionsItemBuilder;
use super::item::{items_view, sort_by_name, DefinitionsItem, DefinitionsItemKind, ItemView};

verus! {

/// The root item of type definitions, with the top-level items as its
/// children.
#[derive(Debug)]
pub struct DefinitionsTree(DefinitionsItem);

/// The root item over top-level items.
pub open spec fn spec_root(items: Seq<ItemView>) -> ItemView {
    ItemView {
        exported: false,
        kind: DefinitionsItemKind::Root,
        typ: None,
        name: Some("<<<ROOT>>>"@),
        meta: None,
        value: None,
        children: sort_by_name(items),
        args: seq![],
        rets: seq![],
    }
}

impl DefinitionsTree {
    /// The root item.
    pub closed spec fn view(&self) -> ItemView {
        self.0.view()
    }

    /// The tree over the top-level items that parsing type definitions
    /// gives: a root item named `<<<ROOT>>>` with copies of the items as
    /// its children, sorted by name.
    pub fn from_top_level_items(items: &[DefinitionsItem]) -> (r: Self)
        ensures
            r.view() == spec_root(items_view(items@)),
    {
        let b = DefinitionsItemBuilder::new().with_kind(DefinitionsItemKind::Root).with_name(
            "<<<ROOT>>>",
        ).with_children(items);
        match b.build() {
            Ok(root) => {
                assert(root.view() == spec_root(items_view(items@))) by {
                    reveal_strlit("<<<ROOT>>>");
                    assert(seq![] + items_view(items@) =~= items_view(items@));
                }
                DefinitionsTree(root)
            },
            Err(_) => {
                assert(false);
                DefinitionsTree(
                    DefinitionsItem {
                        exported: false,
                        kind: DefinitionsItemKind::Root,
                        typ: None,
                        name: None,
                        meta: None,
                        value: None,
                        children: Vec::new(),
                        args: Vec::new(),
                        rets: Vec::new(),
                    },
                )
            },
        }
    }

    /// The tree of type definitions, from what parsing them gave: the
    /// top-level items, or the parser's error, which is reported with the
    /// context `Failed to parse type definitions AST`.
    pub fn from_type_definitions(parsed: Result<Vec<DefinitionsItem>, String>) -> (r: Result<
        Self,
        String,
    >)
        ensures
            match parsed {
                Ok(items) => r matches Ok(t) && t.view() == spec_root(items_view(items@)),
                Err(e) => r matches Err(m) && m@ == "Failed to parse type definitions AST: "@ + e@,
            },
    {
        match parsed {
            Ok(items) => Ok(Self::from_top_level_items(items.as_slice())),
            Err(e) => {
                let mut m = "Failed to parse type definitions AST: ".to_string();
                m.append(e.as_str());
                Err(m)
            },
        }
    }

    /// Whether the tree is at its root; a tree always is.
    pub fn is_root(&self) -> (r: bool)
        ensures
            r,
    {
        true
    }

    /// The root item.
    pub fn into_inner(self) -> (r: DefinitionsItem)
        ensures
            r.view() == self.view(),
    {
        self.0
    }

    /// The root item, borrowed.
    pub fn root(&self) -> (r: &DefinitionsItem)
        ensures
            r.view() == self.view(),
    {
        &self.0
    }
}

/// The root of a tree is a root item named `<<<ROOT>>>`, with nothing but
/// its children set.
pub proof fn lemma_root_item(items: Seq<ItemView>)
    ensures
        spec_root(items).kind == DefinitionsItemKind::Root,
        spec_root(items).name == Some("<<<ROOT>>>"@),
        !spec_root(items).exported,
        spec_root(items).children == sort_by_name(items),
{
}

} // verus!
