//! A builder for definitions items.

use vstd::prelude::*;

use super::item::{
    args_view, copy_args, copy_rets, items_view, lemma_items_view_index, lemma_items_view_push,
    lemma_sort_sorted, opt_view, rets_view, sort_by_name, sort_items_by_name, sorted_by_name,
    ArgView, DefinitionsItem,
    DefinitionsItemFunctionArg, DefinitionsItemFunctionRet, DefinitionsItemKind, ItemView, RetView,
};

verus! {

/// Builds a [`DefinitionsItem`] field by field.
pub struct DefinitionsItemBuilder {
    exported: bool,
    kind: Option<DefinitionsItemKind>,
    typ: Option<String>,
    name: Option<String>,
    meta: Option<String>,
    value: Option<String>,
    children: Vec<DefinitionsItem>,
    args: Vec<DefinitionsItemFunctionArg>,
    rets: Vec<DefinitionsItemFunctionRet>,
}

/// The mathematical value of a builder: the fields set so far.
pub ghost struct BuilderView {
    pub exported: bool,
    pub kind: Option<DefinitionsItemKind>,
    pub typ: Option<Seq<char>>,
    pub name: Option<Seq<char>>,
    pub meta: Option<Seq<char>>,
    pub value: Option<Seq<char>>,
    pub children: Seq<ItemView>,
    pub args: Seq<ArgView>,
    pub rets: Seq<RetView>,
}

/// A builder with nothing set.
pub open spec fn empty_builder() -> BuilderView {
    BuilderView {
        exported: false,
        kind: None,
        typ: None,
        name: None,
        meta: None,
        value: None,
        children: seq![],
        args: seq![],
        rets: seq![],
    }
}

/// What building gives: the item with the builder's fields and its
/// children sorted by name, or the error when no kind was set.
pub open spec fn spec_build(b: BuilderView) -> Result<ItemView, Seq<char>> {
    match b.kind {
        None => Err("Missing doc item kind"@),
        Some(kind) => Ok(
            ItemView {
                exported: b.exported,
                kind,
                typ: b.typ,
                name: b.name,
                meta: b.meta,
                value: b.value,
                children: sort_by_name(b.children),
                args: b.args,
                rets: b.rets,
            },
        ),
    }
}

fn copy_items(s: &[DefinitionsItem]) -> (r: Vec<DefinitionsItem>)
    ensures
        items_view(r@) == items_view(s@),
{
    let mut r: Vec<DefinitionsItem> = Vec::new();
    let mut i: usize = 0;
    while i < s.len()
        invariant
            i <= s@.len(),
            items_view(r@) == items_view(s@.take(i as int)),
        decreases s@.len() - i,
    {
        let c = s[i].copy();
        proof {
            lemma_items_view_push(r@, c);
            lemma_items_view_push(s@.take(i as int), s@[i as int]);
            assert(s@.take(i + 1) =~= s@.take(i as int).push(s@[i as int]));
        }
        r.push(c);
        i = i + 1;
    }
    assert(s@.take(i as int) =~= s@);
    r
}

impl Default for DefinitionsItemBuilder {
    fn default() -> (r: Self)
        ensures
            r.view() == empty_builder(),
    {
        let r = DefinitionsItemBuilder {
            exported: false,
            kind: None,
            typ: None,
            name: None,
            meta: None,
            value: None,
            children: Vec::new(),
            args: Vec::new(),
            rets: Vec::new(),
        };
        assert(items_view(r.children@) =~= seq![]);
        assert(args_view(r.args@) =~= seq![]);
        assert(rets_view(r.rets@) =~= seq![]);
        r
    }
}

impl DefinitionsItemBuilder {
    /// The fields set so far.
    pub closed spec fn view(self) -> BuilderView {
        BuilderView {
            exported: self.exported,
            kind: self.kind,
            typ: opt_view(self.typ),
            name: opt_view(self.name),
            meta: opt_view(self.meta),
            value: opt_view(self.value),
            children: items_view(self.children@),
            args: args_view(self.args@),
            rets: rets_view(self.rets@),
        }
    }

    /// A builder with nothing set.
    pub fn new() -> (r: Self)
        ensures
            r.view() == empty_builder(),
    {
        Self::default()
    }

    /// A builder with every field of an item.
    pub fn from_item(value: &DefinitionsItem) -> (r: Self)
        ensures
            r.view() == builder_of(value.view()),
    {
        DefinitionsItemBuilder {
            exported: value.exported,
            kind: Some(value.kind),
            typ: value.typ.clone(),
            name: value.name.clone(),
            meta: value.meta.clone(),
            value: value.value.clone(),
            children: copy_items(value.children.as_slice()),
            args: copy_args(value.args.as_slice()),
            rets: copy_rets(value.rets.as_slice()),
        }
    }

    /// Marks the item as exported.
    pub fn as_exported(self) -> (r: Self)
        ensures
            r.view() == (BuilderView { exported: true, ..self.view() }),
    {
        let mut s = self;
        s.exported = true;
        s
    }

    /// Sets the kind.
    pub fn with_kind(self, kind: DefinitionsItemKind) -> (r: Self)
        ensures
            r.view() == (BuilderView { kind: Some(kind), ..self.view() }),
    {
        let mut s = self;
        s.kind = Some(kind);
        s
    }

    /// Sets the name.
    pub fn with_name(self, name: &str) -> (r: Self)
        ensures
            r.view() == (BuilderView { name: Some(name@), ..self.view() }),
    {
        let mut s = self;
        s.name = Some(name.to_string());
        s
    }

    /// Sets the type.
    pub fn with_type(self, typ: String) -> (r: Self)
        ensures
            r.view() == (BuilderView { typ: Some(typ@), ..self.view() }),
    {
        let mut s = self;
        s.typ = Some(typ);
        s
    }

    /// Sets the meta text.
    pub fn with_meta(self, meta: &str) -> (r: Self)
        ensures
            r.view() == (BuilderView { meta: Some(meta@), ..self.view() }),
    {
        let mut s = self;
        s.meta = Some(meta.to_string());
        s
    }

    /// Sets the value.
    pub fn with_value(self, value: &str) -> (r: Self)
        ensures
            r.view() == (BuilderView { value: Some(value@), ..self.view() }),
    {
        let mut s = self;
        s.value = Some(value.to_string());
        s
    }

    /// Adds a child after the ones already added.
    pub fn with_child(self, child: DefinitionsItem) -> (r: Self)
        ensures
            r.view() == (BuilderView {
                children: self.view().children.push(child.view()),
                ..self.view()
            }),
    {
        let mut s = self;
        proof {
            lemma_items_view_push(s.children@, child);
        }
        s.children.push(child);
        s
    }

    /// Adds copies of children after the ones already added.
    pub fn with_children(self, children: &[DefinitionsItem]) -> (r: Self)
        ensures
            r.view() == (BuilderView {
                children: self.view().children + items_view(children@),
                ..self.view()
            }),
    {
        let mut s = self;
        let mut added = copy_items(children);
        let ghost before = s.children@;
        let ghost copied = added@;
        s.children.append(&mut added);
        proof {
            super::item::lemma_items_view_add(before, copied);
        }
        s
    }

    /// Adds an argument after the ones already added.
    pub fn with_arg(self, arg: DefinitionsItemFunctionArg) -> (r: Self)
        ensures
            r.view() == (BuilderView { args: self.view().args.push(arg.view()), ..self.view() }),
    {
        let mut s = self;
        let ghost before = s.args@;
        s.args.push(arg);
        assert(args_view(s.args@) =~= args_view(before).push(arg.view()));
        s
    }

    /// Adds copies of arguments after the ones already added.
    pub fn with_args(self, args: &[DefinitionsItemFunctionArg]) -> (r: Self)
        ensures
            r.view() == (BuilderView { args: self.view().args + args_view(args@), ..self.view() }),
    {
        let mut s = self;
        let ghost before = s.args@;
        let ghost orig = s.view();
        let mut i: usize = 0;
        while i < args.len()
            invariant
                i <= args@.len(),
                s.view() == (BuilderView { args: s.view().args, ..orig }),
                orig == self.view(),
                args_view(s.args@) == args_view(before) + args_view(args@.take(i as int)),
            decreases args@.len() - i,
        {
            let ghost prev = s.args@;
            s.args.push(args[i].copy());
            assert(args_view(s.args@) =~= args_view(prev).push(args@[i as int].view()));
            assert(args_view(args@.take(i + 1)) =~= args_view(args@.take(i as int)).push(
                args@[i as int].view(),
            ));
            i = i + 1;
        }
        assert(args@.take(i as int) =~= args@);
        s
    }

    /// Adds a return value after the ones already added.
    pub fn with_ret(self, ret: DefinitionsItemFunctionRet) -> (r: Self)
        ensures
            r.view() == (BuilderView { rets: self.view().rets.push(ret.view()), ..self.view() }),
    {
        let mut s = self;
        let ghost before = s.rets@;
        s.rets.push(ret);
        assert(rets_view(s.rets@) =~= rets_view(before).push(ret.view()));
        s
    }

    /// Adds copies of return values after the ones already added.
    pub fn with_rets(self, rets: &[DefinitionsItemFunctionRet]) -> (r: Self)
        ensures
            r.view() == (BuilderView { rets: self.view().rets + rets_view(rets@), ..self.view() }),
    {
        let mut s = self;
        let ghost before = s.rets@;
        let ghost orig = s.view();
        let mut i: usize = 0;
        while i < rets.len()
            invariant
                i <= rets@.len(),
                s.view() == (BuilderView { rets: s.view().rets, ..orig }),
                orig == self.view(),
                rets_view(s.rets@) == rets_view(before) + rets_view(rets@.take(i as int)),
            decreases rets@.len() - i,
        {
            let ghost prev = s.rets@;
            s.rets.push(rets[i].copy());
            assert(rets_view(s.rets@) =~= rets_view(prev).push(rets@[i as int].view()));
            assert(rets_view(rets@.take(i + 1)) =~= rets_view(rets@.take(i as int)).push(
                rets@[i as int].view(),
            ));
            i = i + 1;
        }
        assert(rets@.take(i as int) =~= rets@);
        s
    }

    /// Builds the item, its children sorted by name; fails when no kind
    /// was set.
    pub fn build(self) -> (r: Result<DefinitionsItem, String>)
        ensures
            match r {
                Ok(item) => spec_build(self.view()) == Ok::<ItemView, Seq<char>>(item.view()),
                Err(e) => spec_build(self.view()) == Err::<ItemView, Seq<char>>(e@),
            },
    {
        match self.kind {
            Some(kind) => {
                let children = sort_items_by_name(self.children);
                Ok(
                    DefinitionsItem {
                        exported: self.exported,
                        kind,
                        typ: self.typ,
                        name: self.name,
                        meta: self.meta,
                        value: self.value,
                        children,
                        args: self.args,
                        rets: self.rets,
                    },
                )
            },
            None => Err("Missing doc item kind".to_string()),
        }
    }
}

/// The builder that `from_item` makes of an item.
pub open spec fn builder_of(v: ItemView) -> BuilderView {
    BuilderView {
        exported: v.exported,
        kind: Some(v.kind),
        typ: v.typ,
        name: v.name,
        meta: v.meta,
        value: v.value,
        children: v.children,
        args: v.args,
        rets: v.rets,
    }
}

/// Building again an item whose children are sorted by name gives the item
/// back.
pub proof fn lemma_rebuild_sorted_item(v: ItemView)
    requires
        sorted_by_name(v.children),
    ensures
        spec_build(builder_of(v)) == Ok::<ItemView, Seq<char>>(v),
{
    lemma_sort_sorted(v.children);
}

/// A builder with children added one at a time, as `with_child` adds them.
pub open spec fn add_children_one_by_one(b: BuilderView, cs: Seq<ItemView>) -> BuilderView
    decreases cs.len(),
{
    if cs.len() == 0 {
        b
    } else {
        add_children_one_by_one(BuilderView { children: b.children.push(cs[0]), ..b }, cs.drop_first())
    }
}

/// Adding children one at a time with `with_child` gives what adding them
/// all at once with `with_children` gives: they follow the children
/// already added, in order, and nothing else changes.
pub proof fn lemma_children_one_by_one(b: BuilderView, cs: Seq<ItemView>)
    ensures
        add_children_one_by_one(b, cs) == (BuilderView { children: b.children + cs, ..b }),
    decreases cs.len(),
{
    if cs.len() > 0 {
        let b1 = BuilderView { children: b.children.push(cs[0]), ..b };
        lemma_children_one_by_one(b1, cs.drop_first());
        assert(b1.children + cs.drop_first() =~= b.children + cs);
    }
}

} // verus!
