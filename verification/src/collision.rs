//! The collision policy of the mapping table: which of several endpoints
//! that write a field of the same name gets the key.

use crate::api_mapping::{
    ApiFieldMapping, HttpMethod, MappingModel, MappingTable, table_keys, table_lookup,
};
use crate::text::{
    is_prefix, lemma_position_of, lemma_position_of_is, lemma_position_of_none, position_of,
    starts_with,
};
use vstd::prelude::*;

verus! {

broadcast use vstd::std_specs::vec::group_vec_axioms;

/// The preferred way to write a setting of a repository: a `PATCH` to the
/// repository itself or to something of it.
pub open spec fn is_preferred(mapping: MappingModel) -> bool {
    is_prefix("/repos/{owner}/{repo}"@, mapping.endpoint) && mapping.method == HttpMethod::Patch
}

/// The table with the mapping under its key: in place of the entry that
/// the key has, or behind all entries if it has none.
pub open spec fn table_put(table: Seq<MappingModel>, mapping: MappingModel) -> Seq<MappingModel> {
    match position_of(table_keys(table), mapping.config_key) {
        Some(i) => table.update(i, mapping),
        None => table.push(mapping),
    }
}

/// The table after one more candidate: the candidate takes its key unless
/// the key is held by a preferred mapping.
pub open spec fn with_candidate(table: Seq<MappingModel>, candidate: MappingModel) -> Seq<
    MappingModel,
> {
    match table_lookup(table, candidate.config_key) {
        Some(held) => if is_preferred(held) {
            table
        } else {
            table_put(table, candidate)
        },
        None => table_put(table, candidate),
    }
}

/// The table that the first `upto` candidates make, taken in order.
pub open spec fn collected(candidates: Seq<MappingModel>, upto: int) -> Seq<MappingModel>
    decreases upto,
{
    if upto <= 0 {
        Seq::empty()
    } else {
        with_candidate(collected(candidates, upto - 1), candidates[upto - 1])
    }
}

/// The first preferred candidate for a key among the first `upto`.
pub open spec fn first_preferred(candidates: Seq<MappingModel>, key: Seq<char>, upto: int) -> Option<
    MappingModel,
>
    decreases upto,
{
    if upto <= 0 {
        None
    } else {
        match first_preferred(candidates, key, upto - 1) {
            Some(m) => Some(m),
            None => if candidates[upto - 1].config_key == key && is_preferred(
                candidates[upto - 1],
            ) {
                Some(candidates[upto - 1])
            } else {
                None
            },
        }
    }
}

/// The last candidate for a key among the first `upto`.
pub open spec fn last_for_key(candidates: Seq<MappingModel>, key: Seq<char>, upto: int) -> Option<
    MappingModel,
>
    decreases upto,
{
    if upto <= 0 {
        None
    } else if candidates[upto - 1].config_key == key {
        Some(candidates[upto - 1])
    } else {
        last_for_key(candidates, key, upto - 1)
    }
}

/// The candidate that gets a key: the first preferred one, or, where none
/// is preferred, the last one.
pub open spec fn chosen(candidates: Seq<MappingModel>, key: Seq<char>, upto: int) -> Option<
    MappingModel,
> {
    match first_preferred(candidates, key, upto) {
        Some(m) => Some(m),
        None => last_for_key(candidates, key, upto),
    }
}

/// What `first_preferred` finds is preferred and bears the key; where it
/// finds nothing, no candidate for the key is preferred.
pub proof fn lemma_first_preferred(candidates: Seq<MappingModel>, key: Seq<char>, upto: int)
    requires
        0 <= upto <= candidates.len(),
    ensures
        match first_preferred(candidates, key, upto) {
            Some(m) => is_preferred(m) && m.config_key == key,
            None => forall|k: int|
                0 <= k < upto && (#[trigger] candidates[k]).config_key == key ==> !is_preferred(
                    candidates[k],
                ),
        },
    decreases upto,
{
    if upto > 0 {
        lemma_first_preferred(candidates, key, upto - 1);
    }
}

/// What `last_for_key` finds bears the key and is among the candidates.
pub proof fn lemma_last_for_key(candidates: Seq<MappingModel>, key: Seq<char>, upto: int)
    requires
        0 <= upto <= candidates.len(),
    ensures
        match last_for_key(candidates, key, upto) {
            Some(m) => m.config_key == key && exists|k: int|
                0 <= k < upto && #[trigger] candidates[k] == m,
            None => true,
        },
    decreases upto,
{
    if upto > 0 {
        lemma_last_for_key(candidates, key, upto - 1);
        if candidates[upto - 1].config_key != key && last_for_key(candidates, key, upto - 1)
            is Some {
            let m = last_for_key(candidates, key, upto - 1)->0;
            let k = choose|k: int| 0 <= k < upto - 1 && #[trigger] candidates[k] == m;
            assert(candidates[k] == m);
        }
    }
}

/// Putting a mapping into a table without double keys gives a table
/// without double keys, in which the mapping is what its key leads to and
/// every other key leads to what it led to.
pub proof fn lemma_table_put(table: Seq<MappingModel>, mapping: MappingModel, key: Seq<char>)
    requires
        table_keys(table).no_duplicates(),
    ensures
        table_keys(table_put(table, mapping)).no_duplicates(),
        table_lookup(table_put(table, mapping), key) == if key == mapping.config_key {
            Some(mapping)
        } else {
            table_lookup(table, key)
        },
{
    let keys = table_keys(table);
    let after = table_put(table, mapping);
    let after_keys = table_keys(after);
    lemma_position_of(keys, mapping.config_key);
    lemma_position_of(keys, key);
    lemma_position_of(after_keys, key);
    match position_of(keys, mapping.config_key) {
        Some(i) => {
            assert(after_keys =~= keys);
        },
        None => {
            assert(after_keys =~= keys.push(mapping.config_key));
            if key == mapping.config_key {
                lemma_position_of_is(after_keys, key, table.len() as int);
            } else {
                match position_of(keys, key) {
                    Some(j) => {
                        lemma_position_of_is(after_keys, key, j);
                    },
                    None => {
                        lemma_position_of_none(after_keys, key);
                    },
                }
            }
        },
    }
}

/// The collision policy, as what each key leads to: the table that the
/// candidates make has no key twice, and a key leads to the first
/// preferred candidate for it, or, where none is preferred, to the last
/// candidate for it.
pub proof fn lemma_collected(candidates: Seq<MappingModel>, key: Seq<char>, upto: int)
    requires
        0 <= upto <= candidates.len(),
    ensures
        table_keys(collected(candidates, upto)).no_duplicates(),
        table_lookup(collected(candidates, upto), key) == chosen(candidates, key, upto),
    decreases upto,
{
    if upto > 0 {
        let before = collected(candidates, upto - 1);
        let candidate = candidates[upto - 1];
        lemma_collected(candidates, key, upto - 1);
        lemma_collected(candidates, candidate.config_key, upto - 1);
        lemma_first_preferred(candidates, key, upto - 1);
        lemma_first_preferred(candidates, candidate.config_key, upto - 1);
        lemma_last_for_key(candidates, candidate.config_key, upto - 1);
        lemma_table_put(before, candidate, key);
    } else {
        lemma_position_of_none(table_keys(collected(candidates, 0)), key);
    }
}

/// Tests whether a mapping is the preferred way to write a setting of a
/// repository.
pub fn preferred(mapping: &ApiFieldMapping) -> (r: bool)
    ensures
        r == is_preferred(mapping@),
{
    starts_with(mapping.endpoint.as_str(), "/repos/{owner}/{repo}") && mapping.method
        == HttpMethod::Patch
}

impl MappingTable {
    /// Offers a candidate to the table: it takes its key unless the key is
    /// held by a preferred mapping.
    pub fn offer(&mut self, candidate: ApiFieldMapping)
        ensures
            final(self)@ == with_candidate(old(self)@, candidate@),
    {
        let held_preferred: bool = match self.get(candidate.config_key.as_str()) {
            Some(held) => preferred(held),
            None => false,
        };
        if !held_preferred {
            self.insert(candidate);
        }
    }

    /// Makes the table of a list of candidates, taken in order. Of several
    /// candidates for a key the first preferred one gets it, or, where none
    /// is preferred, the last one (see [`lemma_collected`]).
    pub fn from_candidates(candidates: Vec<ApiFieldMapping>) -> (r: Self)
        ensures
            r@ == collected(candidates.deep_view(), candidates.len() as int),
    {
        let ghost all = candidates.deep_view();
        let mut table: MappingTable = MappingTable::new();
        let mut rest: Vec<ApiFieldMapping> = candidates;
        let ghost n = rest.len();
        while rest.len() > 0
            invariant
                rest.len() <= n,
                n == all.len(),
                table@ == collected(all, n - rest.len()),
                forall|k: int| 0 <= k < rest.len() ==> rest@[k]@ == all[n - rest.len() + k],
            decreases rest.len(),
        {
            let candidate: ApiFieldMapping = rest.remove(0);
            table.offer(candidate);
        }
        table
    }
}

} // verus!
