//! What holds of the merge of defaults, proved from its definition.

use crate::merge::{
    is_matched, lemma_named_position, lemma_named_position_is, merge, missing_entries,
    named_position, partner, record_name, record_names, unmatched,
};
use crate::node::{
    dict_keys, key_position, lemma_key_position, lemma_key_position_is, lemma_key_position_none,
    Tree, unique_keys,
};
use vstd::prelude::*;

verus! {

/// With no key of `defaults` in `main`, every entry of `defaults` is missing.
pub proof fn lemma_missing_entries_all(
    main: Seq<(Seq<char>, Tree)>,
    defaults: Seq<(Seq<char>, Tree)>,
    upto: int,
)
    requires
        0 <= upto <= defaults.len(),
        forall|j: int| 0 <= j < upto ==> key_position(main, defaults[j].0) is None,
    ensures
        missing_entries(main, defaults, upto) == defaults.take(upto),
    decreases upto,
{
    if upto > 0 {
        lemma_missing_entries_all(main, defaults, upto - 1);
        assert(defaults.take(upto - 1).push(defaults[upto - 1]) =~= defaults.take(upto));
    } else {
        assert(defaults.take(0) =~= Seq::<(Seq<char>, Tree)>::empty());
    }
}

/// With every key of `defaults` in `main`, no entry of `defaults` is missing.
pub proof fn lemma_missing_entries_none(
    main: Seq<(Seq<char>, Tree)>,
    defaults: Seq<(Seq<char>, Tree)>,
    upto: int,
)
    requires
        0 <= upto <= defaults.len(),
        forall|j: int| 0 <= j < upto ==> key_position(main, defaults[j].0) is Some,
    ensures
        missing_entries(main, defaults, upto) == Seq::<(Seq<char>, Tree)>::empty(),
    decreases upto,
{
    if upto > 0 {
        lemma_missing_entries_none(main, defaults, upto - 1);
    }
}

/// The missing entries are entries of `defaults` whose key `main` lacks, and
/// each such entry is among them.
pub proof fn lemma_missing_entries_members(
    main: Seq<(Seq<char>, Tree)>,
    defaults: Seq<(Seq<char>, Tree)>,
    upto: int,
)
    requires
        0 <= upto <= defaults.len(),
    ensures
        forall|k: int|
            0 <= k < missing_entries(main, defaults, upto).len() ==> exists|j: int|
                0 <= j < upto && key_position(main, defaults[j].0) is None
                    && #[trigger] missing_entries(main, defaults, upto)[k] == defaults[j],
        forall|j: int|
            0 <= j < upto && key_position(main, (#[trigger] defaults[j]).0) is None
                ==> exists|k: int|
                0 <= k < missing_entries(main, defaults, upto).len() && missing_entries(
                    main,
                    defaults,
                    upto,
                )[k] == defaults[j],
    decreases upto,
{
    if upto > 0 {
        lemma_missing_entries_members(main, defaults, upto - 1);
        let rest = missing_entries(main, defaults, upto - 1);
        let all = missing_entries(main, defaults, upto);
        assert forall|k: int| 0 <= k < all.len() implies exists|j: int|
            0 <= j < upto && key_position(main, defaults[j].0) is None && #[trigger] all[k]
                == defaults[j] by {
            if k < rest.len() {
                assert(all[k] == rest[k]);
                let j = choose|j: int|
                    0 <= j < upto - 1 && key_position(main, defaults[j].0) is None && rest[k]
                        == defaults[j];
                assert(0 <= j < upto && all[k] == defaults[j]);
            } else {
                assert(all[k] == defaults[upto - 1]);
            }
        }
        assert forall|j: int|
            0 <= j < upto && key_position(main, (#[trigger] defaults[j]).0) is None implies exists|
            k: int,
        |
            0 <= k < all.len() && all[k] == defaults[j] by {
            if j < upto - 1 {
                let k = choose|k: int| 0 <= k < rest.len() && rest[k] == defaults[j];
                assert(all[k] == defaults[j]);
            } else {
                assert(all[all.len() - 1] == defaults[j]);
            }
        }
    }
}

/// Merging an empty mapping of defaults into any tree changes nothing.
pub proof fn lemma_merge_empty_defaults(main: Tree)
    ensures
        merge(main, Tree::Dict(Seq::empty())) == main,
{
    let none = Seq::<(Seq<char>, Tree)>::empty();
    match main {
        Tree::Dict(m) => {
            assert forall|i: int| 0 <= i < m.len() implies key_position(none, m[i].0) is None by {
                lemma_key_position_none(none, m[i].0);
            }
            assert(merge(main, Tree::Dict(none))->Dict_0 =~= m);
        },
        _ => {},
    }
}

/// Merging a mapping of defaults into the empty mapping gives the defaults.
/// (Defaults that are no mapping leave the empty mapping as it is.)
pub proof fn lemma_merge_into_empty(defaults: Tree)
    requires
        defaults is Dict,
    ensures
        merge(Tree::Dict(Seq::empty()), defaults) == defaults,
{
    let none = Seq::<(Seq<char>, Tree)>::empty();
    let d = defaults->Dict_0;
    assert forall|j: int| 0 <= j < d.len() implies key_position(none, d[j].0) is None by {
        lemma_key_position_none(none, d[j].0);
    }
    lemma_missing_entries_all(none, d, d.len() as int);
    assert(d.take(d.len() as int) =~= d);
    assert(merge(Tree::Dict(none), defaults)->Dict_0 =~= d);
}

/// A tree on which the merge settles: no mapping in it holds a key twice, and
/// every sequence in it holds named records whose names all differ.
pub open spec fn settled(t: Tree) -> bool
    decreases t,
{
    match t {
        Tree::Dict(entries) => {
            &&& unique_keys(entries)
            &&& forall|i: int| 0 <= i < entries.len() ==> settled((#[trigger] entries[i]).1)
        },
        Tree::List(items) => {
            &&& record_names(items).no_duplicates()
            &&& forall|i: int|
                0 <= i < items.len() ==> record_name(#[trigger] items[i]) is Some && settled(
                    items[i],
                )
        },
        _ => true,
    }
}

/// Where no key occurs twice, each entry stands at the position of its key.
pub proof fn lemma_unique_position(entries: Seq<(Seq<char>, Tree)>, j: int)
    requires
        unique_keys(entries),
        0 <= j < entries.len(),
    ensures
        key_position(entries, entries[j].0) == Some(j),
{
    assert forall|k: int| 0 <= k < j implies entries[k].0 != entries[j].0 by {
        assert(dict_keys(entries)[k] != dict_keys(entries)[j]);
    }
    lemma_key_position_is(entries, entries[j].0, j);
}

/// Where all names differ, each record stands at the position of its name.
pub proof fn lemma_unique_name_position(items: Seq<Tree>, j: int)
    requires
        record_names(items).no_duplicates(),
        0 <= j < items.len(),
        record_name(items[j]) is Some,
    ensures
        named_position(items, record_name(items[j])->0) == Some(j),
{
    let name = record_name(items[j])->0;
    assert forall|k: int| 0 <= k < j implies record_name(items[k]) != Some(name) by {
        assert(record_names(items)[k] != record_names(items)[j]);
    }
    lemma_named_position_is(items, name, j);
}

/// Where every item of `defaults` has a match in `main`, none is left to
/// append.
pub proof fn lemma_unmatched_none(main: Seq<Tree>, defaults: Seq<Tree>, upto: int)
    requires
        0 <= upto <= defaults.len(),
        forall|j: int| 0 <= j < upto ==> is_matched(main, #[trigger] defaults[j]),
    ensures
        unmatched(main, defaults, upto) == Seq::<Tree>::empty(),
    decreases upto,
{
    if upto > 0 {
        lemma_unmatched_none(main, defaults, upto - 1);
        assert(is_matched(main, defaults[upto - 1]));
    }
}

/// What is appended are items of `defaults` without a match in `main`, and
/// each such item is appended.
pub proof fn lemma_unmatched_members(main: Seq<Tree>, defaults: Seq<Tree>, upto: int)
    requires
        0 <= upto <= defaults.len(),
    ensures
        forall|k: int|
            0 <= k < unmatched(main, defaults, upto).len() ==> exists|j: int|
                0 <= j < upto && !is_matched(main, defaults[j]) && #[trigger] unmatched(
                    main,
                    defaults,
                    upto,
                )[k] == defaults[j],
        forall|j: int|
            0 <= j < upto && !is_matched(main, #[trigger] defaults[j]) ==> exists|k: int|
                0 <= k < unmatched(main, defaults, upto).len() && unmatched(
                    main,
                    defaults,
                    upto,
                )[k] == defaults[j],
    decreases upto,
{
    if upto > 0 {
        lemma_unmatched_members(main, defaults, upto - 1);
        let rest = unmatched(main, defaults, upto - 1);
        let all = unmatched(main, defaults, upto);
        assert forall|k: int| 0 <= k < all.len() implies exists|j: int|
            0 <= j < upto && !is_matched(main, defaults[j]) && #[trigger] all[k]
                == defaults[j] by {
            if k < rest.len() {
                assert(all[k] == rest[k]);
                let j = choose|j: int|
                    0 <= j < upto - 1 && !is_matched(main, defaults[j]) && rest[k] == defaults[j];
                assert(0 <= j < upto && all[k] == defaults[j]);
            } else {
                assert(all[k] == defaults[upto - 1]);
            }
        }
        assert forall|j: int|
            0 <= j < upto && !is_matched(main, #[trigger] defaults[j]) implies exists|k: int|
            0 <= k < all.len() && all[k] == defaults[j] by {
            if j < upto - 1 {
                let k = choose|k: int| 0 <= k < rest.len() && rest[k] == defaults[j];
                assert(all[k] == defaults[j]);
            } else {
                assert(all[all.len() - 1] == defaults[j]);
            }
        }
    }
}

/// A named record keeps its name when defaults are merged into it.
pub proof fn lemma_merge_keeps_name(main: Tree, defaults: Tree)
    requires
        record_name(main) is Some,
    ensures
        record_name(merge(main, defaults)) == record_name(main),
{
    let m = main->Dict_0;
    let key = "name"@;
    lemma_key_position(m, key);
    let p = key_position(m, key)->0;
    match defaults {
        Tree::Dict(d) => {
            let r = merge(main, defaults)->Dict_0;
            lemma_key_position(d, key);
            assert(r[p].0 == key);
            assert forall|k: int| 0 <= k < p implies r[k].0 != key by {
                assert(r[k].0 == m[k].0);
            }
            lemma_key_position_is(r, key, p);
            assert(m[p].1 is Text);
            match key_position(d, key) {
                Some(j) => {
                    assert(merge(m[p].1, d[j].1) == m[p].1);
                },
                None => {},
            }
            assert(r[p].1 == m[p].1);
        },
        _ => {},
    }
}

/// Merging a settled tree into itself changes nothing.
pub proof fn lemma_merge_self(t: Tree)
    requires
        settled(t),
    ensures
        merge(t, t) == t,
    decreases t,
{
    match t {
        Tree::Dict(e) => {
            assert forall|i: int| 0 <= i < e.len() implies key_position(e, e[i].0) == Some(i)
                && merge(e[i].1, e[i].1) == e[i].1 by {
                lemma_unique_position(e, i);
                lemma_merge_self(e[i].1);
            }
            lemma_missing_entries_none(e, e, e.len() as int);
            assert(merge(t, t)->Dict_0 =~= e);
        },
        Tree::List(items) => {
            if items.len() > 0 {
                assert forall|i: int| 0 <= i < items.len() implies partner(items, items, i)
                    == Some(i) && merge(items[i], items[i]) == items[i] && is_matched(
                    items,
                    #[trigger] items[i],
                ) by {
                    lemma_unique_name_position(items, i);
                    lemma_merge_self(items[i]);
                }
                lemma_unmatched_none(items, items, items.len() as int);
                assert(merge(t, t)->List_0 =~= items);
            }
        },
        _ => {},
    }
}

/// Merging the same settled defaults a second time changes nothing.
pub proof fn lemma_merge_idempotent(main: Tree, defaults: Tree)
    requires
        settled(defaults),
    ensures
        merge(merge(main, defaults), defaults) == merge(main, defaults),
    decreases defaults,
{
    let once = merge(main, defaults);
    match (main, defaults) {
        (Tree::Dict(m), Tree::Dict(d)) => {
            let r = once->Dict_0;
            let miss = missing_entries(m, d, d.len() as int);
            lemma_missing_entries_members(m, d, d.len() as int);
            assert forall|j: int| 0 <= j < d.len() implies key_position(r, d[j].0) is Some by {
                lemma_key_position(r, d[j].0);
                lemma_key_position(m, d[j].0);
                match key_position(m, d[j].0) {
                    Some(i) => {
                        assert(r[i].0 == d[j].0);
                    },
                    None => {
                        let k = choose|k: int| 0 <= k < miss.len() && miss[k] == d[j];
                        assert(r[m.len() + k] == miss[k]);
                    },
                }
            }
            lemma_missing_entries_none(r, d, d.len() as int);
            let twice = merge(once, defaults)->Dict_0;
            assert(twice.len() == r.len());
            assert forall|i: int| 0 <= i < r.len() implies twice[i] == r[i] by {
                lemma_key_position(d, r[i].0);
                if i < m.len() {
                    match key_position(d, m[i].0) {
                        Some(j) => {
                            lemma_merge_idempotent(m[i].1, d[j].1);
                        },
                        None => {},
                    }
                } else {
                    let k = i - m.len();
                    assert(r[i] == miss[k]);
                    let j = choose|j: int|
                        0 <= j < d.len() && key_position(m, d[j].0) is None && miss[k] == d[j];
                    lemma_unique_position(d, j);
                    lemma_merge_self(d[j].1);
                }
            }
            assert(twice =~= r);
        },
        (Tree::List(m), Tree::List(d)) => {
            if m.len() == 0 {
                lemma_merge_self(defaults);
            } else {
                let r = once->List_0;
                let rest = unmatched(m, d, d.len() as int);
                lemma_unmatched_members(m, d, d.len() as int);
                assert(r.len() == m.len() + rest.len());
                // The items of `main` keep their names in the result.
                assert forall|i: int| 0 <= i < m.len() implies record_name(#[trigger] r[i])
                    == record_name(m[i]) by {
                    match partner(m, d, i) {
                        Some(j) => {
                            lemma_named_position(d, record_name(m[i])->0);
                            lemma_merge_keeps_name(m[i], d[j]);
                        },
                        None => {},
                    }
                }
                // A name leads to the same item of `main` in the result.
                assert forall|name: Seq<char>| named_position(m, name) is Some implies (
                #[trigger] named_position(r, name)) == named_position(m, name) by {
                    lemma_named_position(m, name);
                    let p = named_position(m, name)->0;
                    assert(record_name(r[p]) == Some(name));
                    assert forall|k: int| 0 <= k < p implies record_name(r[k]) != Some(name) by {
                        assert(record_name(r[k]) == record_name(m[k]));
                    }
                    lemma_named_position_is(r, name, p);
                }
                // Every item of the defaults has its match in the result.
                assert forall|j: int| 0 <= j < d.len() implies is_matched(r, #[trigger] d[j]) by {
                    let name = record_name(d[j])->0;
                    if named_position(m, name) is Some {
                        assert(named_position(r, name) == named_position(m, name));
                    } else {
                        assert(!is_matched(m, d[j]));
                        let k = choose|k: int| 0 <= k < rest.len() && rest[k] == d[j];
                        assert(r[m.len() + k] == d[j]);
                        lemma_named_position(r, name);
                    }
                }
                lemma_unmatched_none(r, d, d.len() as int);
                // Merging a second time leaves every item of the result as it is.
                let twice = merge(once, defaults)->List_0;
                assert(twice.len() == r.len());
                assert forall|x: int| 0 <= x < r.len() implies twice[x] == r[x] by {
                    match record_name(r[x]) {
                        Some(name) => {
                            lemma_named_position(d, name);
                            lemma_named_position(r, name);
                            if x < m.len() {
                                assert(record_name(m[x]) == Some(name));
                                lemma_named_position(m, name);
                                assert(named_position(r, name) == named_position(m, name));
                                match partner(m, d, x) {
                                    Some(j) => {
                                        lemma_merge_idempotent(m[x], d[j]);
                                    },
                                    None => {},
                                }
                            } else {
                                let k = x - m.len();
                                assert(r[x] == rest[k]);
                                let j = choose|j: int|
                                    0 <= j < d.len() && !is_matched(m, d[j]) && rest[k] == d[j];
                                lemma_unique_name_position(d, j);
                                lemma_merge_self(d[j]);
                            }
                        },
                        None => {},
                    }
                }
                assert(twice =~= r);
            }
        },
        _ => {},
    }
}

/// `result` keeps what `main` holds. A scalar is kept as it is. Of a
/// mapping every entry is kept in its place, with what its value holds.
/// Of a sequence that is not empty every item is kept in its place, with
/// what it holds; an empty sequence holds nothing to keep.
pub open spec fn keeps(main: Tree, result: Tree) -> bool
    decreases main,
{
    match main {
        Tree::Dict(m) => match result {
            Tree::Dict(r) => {
                &&& m.len() <= r.len()
                &&& forall|i: int|
                    0 <= i < m.len() ==> (#[trigger] r[i]).0 == m[i].0 && keeps(m[i].1, r[i].1)
            },
            _ => false,
        },
        Tree::List(m) => m.len() == 0 || match result {
            Tree::List(r) => {
                &&& m.len() <= r.len()
                &&& forall|i: int| 0 <= i < m.len() ==> keeps(m[i], #[trigger] r[i])
            },
            _ => false,
        },
        _ => result == main,
    }
}

/// Every tree keeps what it holds.
pub proof fn lemma_keeps_itself(t: Tree)
    ensures
        keeps(t, t),
    decreases t,
{
    match t {
        Tree::Dict(m) => {
            assert forall|i: int| 0 <= i < m.len() implies keeps((#[trigger] m[i]).1, m[i].1) by {
                lemma_keeps_itself(m[i].1);
            }
        },
        Tree::List(m) => {
            assert forall|i: int| 0 <= i < m.len() implies keeps(m[i], #[trigger] m[i]) by {
                lemma_keeps_itself(m[i]);
            }
        },
        _ => {},
    }
}

/// The merge only fills gaps: its result keeps what `main` holds, whatever
/// the defaults.
pub proof fn lemma_merge_keeps_main(main: Tree, defaults: Tree)
    ensures
        keeps(main, merge(main, defaults)),
    decreases defaults,
{
    let result = merge(main, defaults);
    match (main, defaults) {
        (Tree::Dict(m), Tree::Dict(d)) => {
            let r = result->Dict_0;
            assert forall|i: int| 0 <= i < m.len() implies (#[trigger] r[i]).0 == m[i].0 && keeps(
                m[i].1,
                r[i].1,
            ) by {
                lemma_key_position(d, m[i].0);
                match key_position(d, m[i].0) {
                    Some(j) => {
                        lemma_merge_keeps_main(m[i].1, d[j].1);
                    },
                    None => {
                        lemma_keeps_itself(m[i].1);
                    },
                }
            }
        },
        (Tree::List(m), Tree::List(d)) => {
            if m.len() > 0 {
                let r = result->List_0;
                assert forall|i: int| 0 <= i < m.len() implies keeps(m[i], #[trigger] r[i]) by {
                    match partner(m, d, i) {
                        Some(j) => {
                            lemma_named_position(d, record_name(m[i])->0);
                            lemma_merge_keeps_main(m[i], d[j]);
                        },
                        None => {
                            lemma_keeps_itself(m[i]);
                        },
                    }
                }
            }
        },
        _ => {
            lemma_keeps_itself(main);
        },
    }
}

/// A tree in which no mapping holds a key twice.
pub open spec fn well_formed(t: Tree) -> bool
    decreases t,
{
    match t {
        Tree::Dict(entries) => {
            &&& unique_keys(entries)
            &&& forall|i: int| 0 <= i < entries.len() ==> well_formed((#[trigger] entries[i]).1)
        },
        Tree::List(items) => forall|i: int| 0 <= i < items.len() ==> well_formed(#[trigger] items[i]),
        _ => true,
    }
}

/// Among the entries that are missing no key stands twice, where none does
/// among the defaults.
pub proof fn lemma_missing_entries_unique(
    main: Seq<(Seq<char>, Tree)>,
    defaults: Seq<(Seq<char>, Tree)>,
    upto: int,
)
    requires
        0 <= upto <= defaults.len(),
        unique_keys(defaults),
    ensures
        unique_keys(missing_entries(main, defaults, upto)),
    decreases upto,
{
    if upto > 0 {
        lemma_missing_entries_unique(main, defaults, upto - 1);
        lemma_missing_entries_members(main, defaults, upto - 1);
        let rest = missing_entries(main, defaults, upto - 1);
        let all = missing_entries(main, defaults, upto);
        let last = defaults[upto - 1];
        if key_position(main, last.0) is None {
            assert(all == rest.push(last));
            assert forall|k: int| 0 <= k < rest.len() implies dict_keys(rest)[k] != last.0 by {
                let j = choose|j: int|
                    0 <= j < upto - 1 && key_position(main, defaults[j].0) is None && rest[k]
                        == defaults[j];
                assert(dict_keys(defaults)[j] != dict_keys(defaults)[upto - 1]);
            }
            assert(dict_keys(all) =~= dict_keys(rest).push(last.0));
            lemma_push_keeps_unique(dict_keys(rest), last.0);
        }
    }
}

/// A list without doubles stays one when something new is pushed onto it.
pub proof fn lemma_push_keeps_unique(keys: Seq<Seq<char>>, key: Seq<char>)
    requires
        keys.no_duplicates(),
        forall|k: int| 0 <= k < keys.len() ==> keys[k] != key,
    ensures
        keys.push(key).no_duplicates(),
{
}

/// Two lists without doubles that share nothing make one without doubles.
pub proof fn lemma_joined_keeps_unique(a: Seq<Seq<char>>, b: Seq<Seq<char>>)
    requires
        a.no_duplicates(),
        b.no_duplicates(),
        forall|i: int, j: int| 0 <= i < a.len() && 0 <= j < b.len() ==> a[i] != b[j],
    ensures
        (a + b).no_duplicates(),
{
    let all = a + b;
    assert forall|x: int, y: int| 0 <= x < all.len() && 0 <= y < all.len() && x != y implies all[x]
        != all[y] by {
        if x < a.len() && y < a.len() {
        } else if x >= a.len() && y >= a.len() {
            assert(b[x - a.len()] != b[y - a.len()]);
        } else if x < a.len() {
            assert(a[x] != b[y - a.len()]);
        } else {
            assert(a[y] != b[x - a.len()]);
        }
    }
}

/// The merge of trees without double keys is a tree without double keys.
pub proof fn lemma_merge_well_formed(main: Tree, defaults: Tree)
    requires
        well_formed(main),
        well_formed(defaults),
    ensures
        well_formed(merge(main, defaults)),
    decreases defaults,
{
    let result = merge(main, defaults);
    match (main, defaults) {
        (Tree::Dict(m), Tree::Dict(d)) => {
            let r = result->Dict_0;
            let miss = missing_entries(m, d, d.len() as int);
            lemma_missing_entries_unique(m, d, d.len() as int);
            lemma_missing_entries_members(m, d, d.len() as int);
            assert forall|i: int| 0 <= i < r.len() implies well_formed((#[trigger] r[i]).1) by {
                if i < m.len() {
                    lemma_key_position(d, m[i].0);
                    match key_position(d, m[i].0) {
                        Some(j) => {
                            lemma_merge_well_formed(m[i].1, d[j].1);
                        },
                        None => {},
                    }
                } else {
                    let k = i - m.len();
                    assert(r[i] == miss[k]);
                    let j = choose|j: int|
                        0 <= j < d.len() && key_position(m, d[j].0) is None && miss[k] == d[j];
                    assert(well_formed(d[j].1));
                }
            }
            assert forall|i: int, k: int|
                0 <= i < m.len() && 0 <= k < miss.len() implies dict_keys(m)[i] != dict_keys(
                miss,
            )[k] by {
                let j = choose|j: int|
                    0 <= j < d.len() && key_position(m, d[j].0) is None && miss[k] == d[j];
                lemma_key_position(m, d[j].0);
                assert(m[i].0 != d[j].0);
            }
            lemma_joined_keeps_unique(dict_keys(m), dict_keys(miss));
            assert(dict_keys(r) =~= dict_keys(m) + dict_keys(miss));
        },
        (Tree::List(m), Tree::List(d)) => {
            if m.len() > 0 {
                let r = result->List_0;
                let rest = unmatched(m, d, d.len() as int);
                lemma_unmatched_members(m, d, d.len() as int);
                assert forall|k: int| 0 <= k < r.len() implies well_formed(#[trigger] r[k]) by {
                    if k < m.len() {
                        match partner(m, d, k) {
                            Some(j) => {
                                lemma_named_position(d, record_name(m[k])->0);
                                lemma_merge_well_formed(m[k], d[j]);
                            },
                            None => {},
                        }
                    } else {
                        let at = k - m.len();
                        assert(r[k] == rest[at]);
                        let j = choose|j: int|
                            0 <= j < d.len() && !is_matched(m, d[j]) && rest[at] == d[j];
                        assert(well_formed(d[j]));
                    }
                }
            }
        },
        _ => {},
    }
}

} // verus!
