//! Items of type definitions: what a definition file declares, with its
//! documentation.

use vstd::prelude::*;

use crate::text::{chars_lt, chars_lt_exec, str_chars};

verus! {

/// The kind of a definitions item.
#[derive(Debug, Clone, Copy, PartialEq, Eq, Structural)]
pub enum DefinitionsItemKind {
    Root,
    Table,
    Property,
    Function,
    Description,
    Tag,
}

/// An argument of a function item.
#[derive(Debug, Clone)]
pub struct DefinitionsItemFunctionArg {
    pub name: String,
    pub typedef: String,
    pub typedef_simple: String,
}

/// A return value of a function item.
#[derive(Debug, Clone)]
pub struct DefinitionsItemFunctionRet {
    pub typedef: String,
    pub typedef_simple: String,
}

/// An item of type definitions, with its children.
#[derive(Debug)]
pub struct DefinitionsItem {
    pub exported: bool,
    pub kind: DefinitionsItemKind,
    pub typ: Option<String>,
    pub name: Option<String>,
    pub meta: Option<String>,
    pub value: Option<String>,
    pub children: Vec<DefinitionsItem>,
    pub args: Vec<DefinitionsItemFunctionArg>,
    pub rets: Vec<DefinitionsItemFunctionRet>,
}

/// The text of an optional string.
pub open spec fn opt_view(o: Option<String>) -> Option<Seq<char>> {
    match o {
        Some(s) => Some(s@),
        None => None,
    }
}

/// The mathematical value of a function argument.
pub ghost struct ArgView {
    pub name: Seq<char>,
    pub typedef: Seq<char>,
    pub typedef_simple: Seq<char>,
}

/// The mathematical value of a function return value.
pub ghost struct RetView {
    pub typedef: Seq<char>,
    pub typedef_simple: Seq<char>,
}

/// The mathematical value of a definitions item.
pub ghost struct ItemView {
    pub exported: bool,
    pub kind: DefinitionsItemKind,
    pub typ: Option<Seq<char>>,
    pub name: Option<Seq<char>>,
    pub meta: Option<Seq<char>>,
    pub value: Option<Seq<char>>,
    pub children: Seq<ItemView>,
    pub args: Seq<ArgView>,
    pub rets: Seq<RetView>,
}

impl DefinitionsItemFunctionArg {
    /// The mathematical value of the argument.
    pub open spec fn view(&self) -> ArgView {
        ArgView { name: self.name@, typedef: self.typedef@, typedef_simple: self.typedef_simple@ }
    }

    /// A copy of the argument.
    pub fn copy(&self) -> (r: Self)
        ensures
            r.view() == self.view(),
    {
        DefinitionsItemFunctionArg {
            name: self.name.clone(),
            typedef: self.typedef.clone(),
            typedef_simple: self.typedef_simple.clone(),
        }
    }
}

impl DefinitionsItemFunctionRet {
    /// The mathematical value of the return value.
    pub open spec fn view(&self) -> RetView {
        RetView { typedef: self.typedef@, typedef_simple: self.typedef_simple@ }
    }

    /// A copy of the return value.
    pub fn copy(&self) -> (r: Self)
        ensures
            r.view() == self.view(),
    {
        DefinitionsItemFunctionRet {
            typedef: self.typedef.clone(),
            typedef_simple: self.typedef_simple.clone(),
        }
    }
}

/// The values of a sequence of arguments.
pub open spec fn args_view(s: Seq<DefinitionsItemFunctionArg>) -> Seq<ArgView> {
    s.map_values(|a: DefinitionsItemFunctionArg| a.view())
}

/// The values of a sequence of return values.
pub open spec fn rets_view(s: Seq<DefinitionsItemFunctionRet>) -> Seq<RetView> {
    s.map_values(|r: DefinitionsItemFunctionRet| r.view())
}

impl DefinitionsItem {
    /// The mathematical value of the item.
    pub open spec fn view(self) -> ItemView
        decreases self,
    {
        ItemView {
            exported: self.exported,
            kind: self.kind,
            typ: opt_view(self.typ),
            name: opt_view(self.name),
            meta: opt_view(self.meta),
            value: opt_view(self.value),
            children: items_view(self.children@),
            args: args_view(self.args@),
            rets: rets_view(self.rets@),
        }
    }

    /// The name of the item.
    pub fn get_name(&self) -> (r: Option<&str>)
        ensures
            match r {
                Some(s) => opt_view(self.name) == Some(s@),
                None => self.name is None,
            },
    {
        match &self.name {
            Some(s) => Some(s.as_str()),
            None => None,
        }
    }

    /// The meta text of the item.
    pub fn get_meta(&self) -> (r: Option<&str>)
        ensures
            match r {
                Some(s) => opt_view(self.meta) == Some(s@),
                None => self.meta is None,
            },
    {
        match &self.meta {
            Some(s) => Some(s.as_str()),
            None => None,
        }
    }

    /// The value of the item.
    pub fn get_value(&self) -> (r: Option<&str>)
        ensures
            match r {
                Some(s) => opt_view(self.value) == Some(s@),
                None => self.value is None,
            },
    {
        match &self.value {
            Some(s) => Some(s.as_str()),
            None => None,
        }
    }

    /// A copy of the item and all of its children.
    pub fn copy(&self) -> (r: Self)
        ensures
            r.view() == self.view(),
        decreases self,
    {
        let mut children: Vec<DefinitionsItem> = Vec::new();
        let mut i: usize = 0;
        while i < self.children.len()
            invariant
                i <= self.children@.len(),
                items_view(children@) == items_view(self.children@.take(i as int)),
            decreases self.children@.len() - i,
        {
            assert(decreases_to!(self => self.children@[i as int]));
            let c = self.children[i].copy();
            proof {
                lemma_items_view_push(children@, c);
                lemma_items_view_push(self.children@.take(i as int), self.children@[i as int]);
                assert(self.children@.take(i + 1) =~= self.children@.take(i as int).push(
                    self.children@[i as int],
                ));
            }
            children.push(c);
            i = i + 1;
        }
        assert(self.children@.take(i as int) =~= self.children@);
        let args = copy_args(self.args.as_slice());
        let rets = copy_rets(self.rets.as_slice());
        DefinitionsItem {
            exported: self.exported,
            kind: self.kind,
            typ: self.typ.clone(),
            name: self.name.clone(),
            meta: self.meta.clone(),
            value: self.value.clone(),
            children,
            args,
            rets,
        }
    }
}

/// The values of a sequence of items.
pub open spec fn items_view(s: Seq<DefinitionsItem>) -> Seq<ItemView>
    decreases s,
{
    if s.len() == 0 {
        seq![]
    } else {
        items_view(s.drop_last()).push(s.last().view())
    }
}

/// The values of items are taken one by one.
pub proof fn lemma_items_view_push(s: Seq<DefinitionsItem>, x: DefinitionsItem)
    ensures
        items_view(s.push(x)) == items_view(s).push(x.view()),
{
    assert(s.push(x).drop_last() =~= s);
}

/// The values of items keep their number and order.
pub proof fn lemma_items_view_index(s: Seq<DefinitionsItem>)
    ensures
        items_view(s).len() == s.len(),
        forall|i: int| 0 <= i < s.len() ==> #[trigger] items_view(s)[i] == s[i].view(),
    decreases s.len(),
{
    if s.len() > 0 {
        lemma_items_view_index(s.drop_last());
    }
}

/// The values of items, taken over a concatenation.
pub proof fn lemma_items_view_add(a: Seq<DefinitionsItem>, b: Seq<DefinitionsItem>)
    ensures
        items_view(a + b) == items_view(a) + items_view(b),
    decreases b.len(),
{
    if b.len() == 0 {
        assert(a + b =~= a);
        assert(items_view(a) + items_view(b) =~= items_view(a));
    } else {
        lemma_items_view_add(a, b.drop_last());
        assert((a + b).drop_last() =~= a + b.drop_last());
        assert(items_view(a) + items_view(b.drop_last()).push(b.last().view()) =~= (items_view(
            a,
        ) + items_view(b.drop_last())).push(b.last().view()));
    }
}

/// Copies of arguments.
pub fn copy_args(s: &[DefinitionsItemFunctionArg]) -> (r: Vec<DefinitionsItemFunctionArg>)
    ensures
        args_view(r@) == args_view(s@),
{
    let mut r: Vec<DefinitionsItemFunctionArg> = Vec::new();
    let mut i: usize = 0;
    while i < s.len()
        invariant
            i <= s@.len(),
            r@.len() == i,
            forall|k: int| 0 <= k < i ==> (#[trigger] r@[k]).view() == s@[k].view(),
        decreases s@.len() - i,
    {
        r.push(s[i].copy());
        i = i + 1;
    }
    assert(args_view(r@) =~= args_view(s@));
    r
}

/// Copies of return values.
pub fn copy_rets(s: &[DefinitionsItemFunctionRet]) -> (r: Vec<DefinitionsItemFunctionRet>)
    ensures
        rets_view(r@) == rets_view(s@),
{
    let mut r: Vec<DefinitionsItemFunctionRet> = Vec::new();
    let mut i: usize = 0;
    while i < s.len()
        invariant
            i <= s@.len(),
            r@.len() == i,
            forall|k: int| 0 <= k < i ==> (#[trigger] r@[k]).view() == s@[k].view(),
        decreases s@.len() - i,
    {
        r.push(s[i].copy());
        i = i + 1;
    }
    assert(rets_view(r@) =~= rets_view(s@));
    r
}

// ---------------------------------------------------------------------
// Order of items by name

/// Whether one optional name orders strictly before another: no name
/// first, then names in the order of their text, as `Option<String>`
/// orders them.
pub open spec fn name_lt(a: Option<Seq<char>>, b: Option<Seq<char>>) -> bool {
    match (a, b) {
        (None, Some(_)) => true,
        (Some(x), Some(y)) => chars_lt(x, y),
        _ => false,
    }
}

/// Where an item goes into items sorted by name: after every item whose
/// name does not order after its own.
pub open spec fn insert_pos(x: ItemView, s: Seq<ItemView>) -> int
    decreases s.len(),
{
    if s.len() == 0 {
        0
    } else if !name_lt(x.name, s.last().name) {
        s.len() as int
    } else {
        insert_pos(x, s.drop_last())
    }
}

/// The items sorted by name, as the stable `sort_by` on names leaves them.
pub open spec fn sort_by_name(s: Seq<ItemView>) -> Seq<ItemView>
    decreases s.len(),
{
    if s.len() == 0 {
        s
    } else {
        let sorted = sort_by_name(s.drop_last());
        sorted.insert(insert_pos(s.last(), sorted), s.last())
    }
}

/// Whether items are sorted by name: no item's name orders before the name
/// of an item in front of it.
pub open spec fn sorted_by_name(s: Seq<ItemView>) -> bool {
    forall|i: int, j: int| 0 <= i < j < s.len() ==> !name_lt(s[j].name, s[i].name)
}

/// Sorting items that are already sorted by name leaves them as they are.
pub proof fn lemma_sort_sorted(s: Seq<ItemView>)
    requires
        sorted_by_name(s),
    ensures
        sort_by_name(s) == s,
    decreases s.len(),
{
    if s.len() > 0 {
        let d = s.drop_last();
        assert(sorted_by_name(d)) by {
            assert forall|i: int, j: int| 0 <= i < j < d.len() implies !name_lt(
                d[j].name,
                d[i].name,
            ) by {
                assert(d[i] == s[i] && d[j] == s[j]);
            }
        }
        lemma_sort_sorted(d);
        if d.len() > 0 {
            assert(d.last() == s[s.len() - 2]);
            assert(!name_lt(s.last().name, d.last().name));
        }
        assert(insert_pos(s.last(), d) == d.len());
        assert(d.insert(d.len() as int, s.last()) =~= s);
    }
}

proof fn lemma_insert_pos_bounds(x: ItemView, s: Seq<ItemView>)
    ensures
        0 <= insert_pos(x, s) <= s.len(),
    decreases s.len(),
{
    if s.len() > 0 {
        lemma_insert_pos_bounds(x, s.drop_last());
    }
}

/// Whether one optional name orders strictly before another.
pub fn name_lt_exec(a: &Option<String>, b: &Option<String>) -> (r: bool)
    ensures
        r == name_lt(opt_view(*a), opt_view(*b)),
{
    match (a, b) {
        (None, Some(_)) => true,
        (Some(x), Some(y)) => {
            let xs = str_chars(x.as_str());
            let ys = str_chars(y.as_str());
            chars_lt_exec(xs.as_slice(), ys.as_slice())
        },
        _ => false,
    }
}

/// Sorts items by name, keeping items with equal names in their order.
pub fn sort_items_by_name(items: Vec<DefinitionsItem>) -> (r: Vec<DefinitionsItem>)
    ensures
        items_view(r@) == sort_by_name(items_view(items@)),
{
    let mut r: Vec<DefinitionsItem> = Vec::new();
    let mut items = items;
    let ghost all = items@;
    let n0 = items.len();
    assert(all.len() == n0);
    let mut rest: Vec<DefinitionsItem> = Vec::new();
    // Take the items from the back, so that they can be moved out.
    while items.len() > 0
        invariant
            all == items@ + rest@.reverse(),
        decreases items@.len(),
    {
        let x = items.pop().unwrap();
        rest.push(x);
        assert(all =~= items@ + rest@.reverse());
    }
    assert(rest@.reverse() =~= all);
    assert(all.len() == rest@.len());
    let mut i: usize = 0;
    proof {
        lemma_items_view_index(all);
    }
    assert(all.take(0) =~= seq![]);
    while rest.len() > 0
        invariant
            i + rest@.len() == all.len(),
            all.len() <= usize::MAX,
            all == all.take(i as int) + rest@.reverse(),
            items_view(r@) == sort_by_name(items_view(all.take(i as int))),
        decreases rest@.len(),
    {
        let x = rest.pop().unwrap();
        let ghost xv = x.view();
        let ghost sorted = items_view(r@);
        assert(all[i as int] == x) by {
            assert(all == all.take(i as int) + rest@.push(x).reverse());
            assert(rest@.push(x).reverse()[0] == x);
        }
        let mut j: usize = r.len();
        proof {
            lemma_items_view_index(r@);
            lemma_insert_pos_bounds(xv, sorted);
        }
        assert(sorted.take(j as int) =~= sorted);
        while j > 0 && name_lt_exec(&x.name, &r[j - 1].name)
            invariant
                j <= r@.len(),
                sorted == items_view(r@),
                sorted.len() == r@.len(),
                xv == x.view(),
                insert_pos(xv, sorted) == insert_pos(xv, sorted.take(j as int)),
            decreases j,
        {
            proof {
                lemma_items_view_index(r@);
                assert(sorted.take(j as int).last() == sorted[j - 1]);
                assert(sorted.take(j as int).drop_last() =~= sorted.take(j - 1));
            }
            j = j - 1;
        }
        proof {
            lemma_items_view_index(r@);
            if j > 0 {
                assert(sorted.take(j as int).last() == sorted[j - 1]);
            }
            assert(insert_pos(xv, sorted.take(j as int)) == j);
        }
        let ghost old_r = r@;
        r.insert(j, x);
        proof {
            let t = all.take(i + 1);
            assert(t =~= all.take(i as int).push(x));
            lemma_items_view_push(all.take(i as int), x);
            let s = items_view(t);
            assert(s.drop_last() =~= items_view(all.take(i as int)));
            assert(s.last() == xv);
            assert(sort_by_name(s) == sorted.insert(j as int, xv));
            lemma_items_view_index(old_r);
            lemma_items_view_index(r@);
            assert(r@ == old_r.insert(j as int, x));
            assert(items_view(r@) =~= sorted.insert(j as int, xv));
            assert(all =~= all.take(i as int) + rest@.push(x).reverse());
            assert(all.take(i + 1) + rest@.reverse() =~= all);
        }
        i = i + 1;
    }
    assert(all.take(i as int) =~= all);
    r
}

} // verus!
