//! Merging a tree of defaults into a configuration tree: the main tree wins,
//! the defaults fill the gaps.

use crate::node::{
    dict_get, entries_view, find_entry, items_view, key_position, lemma_key_position,
    lemma_view_mapping, lemma_view_sequence, Node, Tree,
};
use crate::text::same_text;
use vstd::prelude::*;

verus! {

broadcast use vstd::std_specs::vec::group_vec_axioms;

/// The name of a record: the text under the key `name` of a mapping.
pub open spec fn record_name(t: Tree) -> Option<Seq<char>> {
    match t {
        Tree::Dict(entries) => match dict_get(entries, "name"@) {
            Some(Tree::Text(s)) => Some(s),
            _ => None,
        },
        _ => None,
    }
}

/// The names of the items of a sequence, in order.
pub open spec fn record_names(items: Seq<Tree>) -> Seq<Option<Seq<char>>> {
    Seq::new(items.len(), |i: int| record_name(items[i]))
}

/// The position of the first record of `items` that is named `name`.
pub open spec fn named_position(items: Seq<Tree>, name: Seq<char>) -> Option<int> {
    record_names(items).index_of_first(Some(name))
}

/// The item of `defaults` that is merged into the item of `main` at `i`: the
/// first record of `defaults` that bears the name of the item, if the item
/// is a named record and the first of `main` that bears its name.
pub open spec fn partner(main: Seq<Tree>, defaults: Seq<Tree>, i: int) -> Option<int> {
    match record_name(main[i]) {
        Some(name) => if named_position(main, name) == Some(i) {
            named_position(defaults, name)
        } else {
            None
        },
        None => None,
    }
}

/// The item has a match in `main`: it is a named record, and a record of
/// `main` bears its name.
pub open spec fn is_matched(main: Seq<Tree>, item: Tree) -> bool {
    match record_name(item) {
        Some(name) => named_position(main, name) is Some,
        None => false,
    }
}

/// Those of the first `upto` items of `defaults` that have no match in
/// `main`, in order.
pub open spec fn unmatched(main: Seq<Tree>, defaults: Seq<Tree>, upto: int) -> Seq<Tree>
    decreases upto,
{
    if upto <= 0 {
        Seq::empty()
    } else {
        let rest = unmatched(main, defaults, upto - 1);
        if is_matched(main, defaults[upto - 1]) {
            rest
        } else {
            rest.push(defaults[upto - 1])
        }
    }
}

/// Those of the first `upto` entries of `defaults` whose key `main` lacks, in
/// order.
pub open spec fn missing_entries(
    main: Seq<(Seq<char>, Tree)>,
    defaults: Seq<(Seq<char>, Tree)>,
    upto: int,
) -> Seq<(Seq<char>, Tree)>
    decreases upto,
{
    if upto <= 0 {
        Seq::empty()
    } else {
        let rest = missing_entries(main, defaults, upto - 1);
        if key_position(main, defaults[upto - 1].0) is Some {
            rest
        } else {
            rest.push(defaults[upto - 1])
        }
    }
}

/// The merge of `defaults` into `main`.
///
/// Two mappings: every entry of `main` stays in its place, merged with the
/// entry of `defaults` under the same key where there is one; the entries of
/// `defaults` whose key `main` lacks follow, in their order.
///
/// Two sequences: an empty `main` gives way to `defaults`. Otherwise every
/// item of `main` stays in its place; the first record of `main` under a
/// name is merged with the first record of `defaults` under that name, where
/// there is one. The items of `defaults` that have no match in `main`
/// follow, in their order: the records whose name no record of `main`
/// bears, and whatever is no named record.
///
/// Anything else: `main`.
pub open spec fn merge(main: Tree, defaults: Tree) -> Tree
    decreases defaults,
{
    match (main, defaults) {
        (Tree::Dict(m), Tree::Dict(d)) => Tree::Dict(
            Seq::new(
                m.len(),
                |i: int|
                    (
                        m[i].0,
                        match key_position(d, m[i].0) {
                            Some(j) => if 0 <= j < d.len() {
                                merge(m[i].1, d[j].1)
                            } else {
                                m[i].1
                            },
                            None => m[i].1,
                        },
                    ),
            ) + missing_entries(m, d, d.len() as int),
        ),
        (Tree::List(m), Tree::List(d)) => if m.len() == 0 {
            defaults
        } else {
            Tree::List(
                Seq::new(
                    m.len(),
                    |i: int|
                        match partner(m, d, i) {
                            Some(j) => if 0 <= j < d.len() {
                                merge(m[i], d[j])
                            } else {
                                m[i]
                            },
                            None => m[i],
                        },
                ) + unmatched(m, d, d.len() as int),
            )
        },
        _ => main,
    }
}

/// What `named_position` is: the least index that holds a record of that name.
pub proof fn lemma_named_position(items: Seq<Tree>, name: Seq<char>)
    ensures
        match named_position(items, name) {
            Some(i) => {
                &&& 0 <= i < items.len()
                &&& record_name(items[i]) == Some(name)
                &&& forall|k: int| 0 <= k < i ==> record_name(items[k]) != Some(name)
            },
            None => forall|k: int| 0 <= k < items.len() ==> record_name(items[k]) != Some(name),
        },
{
    let names = record_names(items);
    names.index_of_first_ensures(Some(name));
    match names.index_of_first(Some(name)) {
        Some(i) => {
            assert forall|k: int| 0 <= k < i implies record_name(items[k]) != Some(name) by {
                assert(names[k] != Some(name));
            }
        },
        None => {
            assert forall|k: int| 0 <= k < items.len() implies record_name(items[k]) != Some(
                name,
            ) by {
                assert(names[k] == record_name(items[k]));
            }
        },
    }
}

/// An index that holds a record of that name, with no earlier one, is the
/// name's position.
pub proof fn lemma_named_position_is(items: Seq<Tree>, name: Seq<char>, i: int)
    requires
        0 <= i < items.len(),
        record_name(items[i]) == Some(name),
        forall|k: int| 0 <= k < i ==> record_name(items[k]) != Some(name),
    ensures
        named_position(items, name) == Some(i),
{
    lemma_named_position(items, name);
    assert(record_names(items)[i] == Some(name));
}

/// The name of a record, if the value is a mapping with a text under `name`.
pub fn name_of(v: &Node) -> (r: Option<&str>)
    ensures
        match r {
            Some(s) => record_name(v@) == Some(s@),
            None => record_name(v@) is None,
        },
{
    match v {
        Node::Mapping(entries) => {
            proof {
                lemma_view_mapping(*entries);
            }
            match find_entry(entries, "name") {
                Some(i) => match &entries[i].1 {
                    Node::String(s) => Some(s.as_str()),
                    _ => None,
                },
                None => None,
            }
        },
        _ => None,
    }
}

/// Finds the first record of `items` that is named `name`.
pub fn find_named(items: &Vec<Node>, name: &str) -> (r: Option<usize>)
    ensures
        match r {
            Some(i) => named_position(items_view(items@), name@) == Some(i as int) && i
                < items.len(),
            None => named_position(items_view(items@), name@) is None,
        },
{
    let mut i: usize = 0;
    while i < items.len()
        invariant
            i <= items.len(),
            forall|k: int| 0 <= k < i ==> record_name(items_view(items@)[k]) != Some(name@),
        decreases items.len() - i,
    {
        let found: bool = match name_of(&items[i]) {
            Some(s) => same_text(s, name),
            None => false,
        };
        if found {
            proof {
                lemma_named_position_is(items_view(items@), name@, i as int);
            }
            return Some(i);
        }
        i += 1;
    }
    proof {
        lemma_named_position(items_view(items@), name@);
    }
    None
}

/// Pushing an entry onto a list of entries pushes its view onto the list's.
pub proof fn lemma_entries_view_push(entries: Seq<(String, Node)>, entry: (String, Node))
    ensures
        entries_view(entries.push(entry)) == entries_view(entries).push((entry.0@, entry.1@)),
{
    assert(entries_view(entries.push(entry)) =~= entries_view(entries).push((entry.0@, entry.1@)));
}

/// Pushing a value onto a list of values pushes its view onto the list's.
pub proof fn lemma_items_view_push(items: Seq<Node>, item: Node)
    ensures
        items_view(items.push(item)) == items_view(items).push(item@),
{
    assert(items_view(items.push(item)) =~= items_view(items).push(item@));
}

/// Merges `defaults` into `main`; see [`merge`] for the rules.
pub fn merge_with_defaults(main: Node, defaults: Node) -> (r: Node)
    ensures
        r@ == merge(main@, defaults@),
{
    merge_values(&main, &defaults)
}

/// Merges `defaults` into `main` without consuming either.
#[verifier::loop_isolation(false)]
pub fn merge_values(main: &Node, defaults: &Node) -> (r: Node)
    ensures
        r@ == merge(main@, defaults@),
    decreases defaults,
{
    match (main, defaults) {
        (Node::Mapping(m), Node::Mapping(d)) => {
            proof {
                lemma_view_mapping(*m);
                lemma_view_mapping(*d);
            }
            let ghost mv = entries_view(m@);
            let ghost dv = entries_view(d@);
            let ghost target = merge(main@, defaults@)->Dict_0;
            let mut out: Vec<(String, Node)> = Vec::new();
            let mut i: usize = 0;
            while i < m.len()
                invariant
                    i <= m.len(),
                    out.len() == i,
                    forall|k: int| 0 <= k < i ==> entries_view(out@)[k] == target[k],
                decreases m.len() - i,
            {
                let merged: Node = match find_entry(d, m[i].0.as_str()) {
                    Some(j) => merge_values(&m[i].1, &d[j].1),
                    None => m[i].1.duplicate(),
                };
                proof {
                    lemma_key_position(dv, mv[i as int].0);
                }
                out.push((m[i].0.clone(), merged));
                i += 1;
            }
            let ghost first = entries_view(out@);
            let mut j: usize = 0;
            while j < d.len()
                invariant
                    j <= d.len(),
                    first.len() == m.len(),
                    forall|k: int| 0 <= k < first.len() ==> first[k] == target[k],
                    entries_view(out@) == first + missing_entries(mv, dv, j as int),
                decreases d.len() - j,
            {
                if find_entry(m, d[j].0.as_str()).is_none() {
                    let entry: (String, Node) = (d[j].0.clone(), d[j].1.duplicate());
                    proof {
                        lemma_entries_view_push(out@, entry);
                        assert((first + missing_entries(mv, dv, j as int)).push(dv[j as int])
                            =~= first + missing_entries(mv, dv, j + 1));
                    }
                    out.push(entry);
                }
                j += 1;
            }
            proof {
                lemma_view_mapping(out);
                assert(entries_view(out@) =~= target);
            }
            Node::Mapping(out)
        },
        (Node::Sequence(m), Node::Sequence(d)) => {
            proof {
                lemma_view_sequence(*m);
                lemma_view_sequence(*d);
            }
            if m.len() == 0 {
                return defaults.duplicate();
            }
            let ghost mv = items_view(m@);
            let ghost dv = items_view(d@);
            let ghost target = merge(main@, defaults@)->List_0;
            let mut out: Vec<Node> = Vec::new();
            let mut i: usize = 0;
            while i < m.len()
                invariant
                    i <= m.len(),
                    out.len() == i,
                    forall|k: int| 0 <= k < i ==> items_view(out@)[k] == target[k],
                decreases m.len() - i,
            {
                let with: Option<usize> = match name_of(&m[i]) {
                    Some(name) => match find_named(m, name) {
                        Some(first) => if first == i {
                            find_named(d, name)
                        } else {
                            None
                        },
                        None => None,
                    },
                    None => None,
                };
                proof {
                    assert(with.is_some() == partner(mv, dv, i as int).is_some());
                    if with.is_some() {
                        assert(partner(mv, dv, i as int) == Some(with.unwrap() as int));
                    }
                }
                let item: Node = match with {
                    Some(j) => merge_values(&m[i], &d[j]),
                    None => m[i].duplicate(),
                };
                out.push(item);
                i += 1;
            }
            let ghost first = items_view(out@);
            let mut j: usize = 0;
            while j < d.len()
                invariant
                    j <= d.len(),
                    first.len() == m.len(),
                    forall|k: int| 0 <= k < first.len() ==> first[k] == target[k],
                    items_view(out@) == first + unmatched(mv, dv, j as int),
                decreases d.len() - j,
            {
                let matched: bool = match name_of(&d[j]) {
                    Some(name) => find_named(m, name).is_some(),
                    None => false,
                };
                if !matched {
                    let item: Node = d[j].duplicate();
                    proof {
                        lemma_items_view_push(out@, item);
                        assert((first + unmatched(mv, dv, j as int)).push(dv[j as int]) =~= first
                            + unmatched(mv, dv, j + 1));
                    }
                    out.push(item);
                }
                j += 1;
            }
            proof {
                lemma_view_sequence(out);
                assert(items_view(out@) =~= target);
            }
            Node::Sequence(out)
        },
        _ => main.duplicate(),
    }
}

} // verus!
