//! What holds of the calls that the settings reconciler plans.

use crate::api_mapping::{HttpMethod, MappingModel};
use crate::github::{
    batched, body_fields, CallModel, Change, change_for, dict_put, settings_calls, targets,
};
use crate::node::{dict_get, key_position, lemma_key_position, lemma_key_position_is, Tree};
use vstd::prelude::*;

verus! {

/// The position of the call that goes to `url` by `method`.
pub open spec fn call_to(calls: Seq<CallModel>, url: Seq<char>, method: HttpMethod) -> Option<int> {
    targets(calls).index_of_first((url, method))
}

/// The body of the call holds a field of that name.
pub open spec fn holds_field(call: CallModel, field: Seq<char>) -> bool {
    key_position(body_fields(call), field) is Some
}

/// One of the first `upto` desired settings asks to write `value` as
/// `field` to `url` by `method`.
pub open spec fn asked(
    desired: Seq<(Seq<char>, Tree)>,
    observed: Seq<(Seq<char>, Tree)>,
    table: Seq<MappingModel>,
    org: Seq<char>,
    repo: Seq<char>,
    upto: int,
    url: Seq<char>,
    method: HttpMethod,
    field: Seq<char>,
    value: Tree,
) -> bool {
    exists|k: int|
        0 <= k < upto && k < desired.len() && #[trigger] change_for(
            desired[k],
            observed,
            table,
            org,
            repo,
        ) == Some(Change { url, method, field, value })
}

/// Putting a value under a key keeps every key that was there, and the key
/// is there afterwards.
pub proof fn lemma_dict_put_keys(
    entries: Seq<(Seq<char>, Tree)>,
    key: Seq<char>,
    value: Tree,
    other: Seq<char>,
)
    ensures
        key_position(dict_put(entries, key, value), key) is Some,
        key_position(entries, other) is Some ==> key_position(
            dict_put(entries, key, value),
            other,
        ) is Some,
{
    let after = dict_put(entries, key, value);
    lemma_key_position(entries, key);
    lemma_key_position(entries, other);
    lemma_key_position(after, key);
    lemma_key_position(after, other);
    match key_position(entries, key) {
        Some(i) => {
            assert(after[i].0 == key);
            if key_position(entries, other) is Some {
                let j = key_position(entries, other)->0;
                assert(after[j].0 == other);
            }
        },
        None => {
            assert(after[entries.len() as int].0 == key);
            if key_position(entries, other) is Some {
                let j = key_position(entries, other)->0;
                assert(after[j].0 == other);
            }
        },
    }
}

/// Putting a value under a key leaves every other entry as it was, and the
/// entry under the key holds the value.
pub proof fn lemma_dict_put_entries(
    entries: Seq<(Seq<char>, Tree)>,
    key: Seq<char>,
    value: Tree,
    j: int,
)
    requires
        0 <= j < dict_put(entries, key, value).len(),
    ensures
        dict_put(entries, key, value)[j] == (key, value) || (j < entries.len() && dict_put(
            entries,
            key,
            value,
        )[j] == entries[j]),
{
    lemma_key_position(entries, key);
}

/// What holds of the planned calls after each desired setting: no two go to
/// the same address by the same method; every change that was asked for is
/// held by the call that goes to its address by its method; and every call
/// has a body of at least one field, each field one that was asked for.
pub proof fn lemma_batched(
    desired: Seq<(Seq<char>, Tree)>,
    observed: Seq<(Seq<char>, Tree)>,
    table: Seq<MappingModel>,
    org: Seq<char>,
    repo: Seq<char>,
    upto: int,
)
    requires
        0 <= upto <= desired.len(),
    ensures
        targets(batched(desired, observed, table, org, repo, upto)).no_duplicates(),
        forall|k: int|
            0 <= k < upto && (#[trigger] change_for(desired[k], observed, table, org, repo))
                is Some ==> {
                let change = change_for(desired[k], observed, table, org, repo)->0;
                let calls = batched(desired, observed, table, org, repo, upto);
                match call_to(calls, change.url, change.method) {
                    Some(i) => 0 <= i < calls.len() && holds_field(calls[i], change.field),
                    None => false,
                }
            },
        forall|i: int|
            0 <= i < batched(desired, observed, table, org, repo, upto).len() ==> {
                let call = (#[trigger] batched(desired, observed, table, org, repo, upto)[i]);
                &&& call.body is Some
                &&& call.body->0 is Dict
                &&& body_fields(call).len() > 0
                &&& forall|j: int|
                    0 <= j < body_fields(call).len() ==> asked(
                        desired,
                        observed,
                        table,
                        org,
                        repo,
                        upto,
                        call.url,
                        call.method,
                        (#[trigger] body_fields(call)[j]).0,
                        body_fields(call)[j].1,
                    )
            },
    decreases upto,
{
    if upto > 0 {
        lemma_batched(desired, observed, table, org, repo, upto - 1);
        let before = batched(desired, observed, table, org, repo, upto - 1);
        let after = batched(desired, observed, table, org, repo, upto);
        match change_for(desired[upto - 1], observed, table, org, repo) {
            Some(change) => {
                let target = (change.url, change.method);
                targets(before).index_of_first_ensures(target);
                match call_to(before, change.url, change.method) {
                    Some(at) => {
                        assert(targets(before)[at] == target);
                        assert(targets(after) =~= targets(before));
                        let fields = body_fields(before[at]);
                        let put = dict_put(fields, change.field, change.value);
                        assert(body_fields(after[at]) == put);
                        lemma_key_position(fields, change.field);
                        assert forall|k: int|
                            0 <= k < upto && (#[trigger] change_for(
                                desired[k],
                                observed,
                                table,
                                org,
                                repo,
                            )) is Some implies {
                            let c = change_for(desired[k], observed, table, org, repo)->0;
                            match call_to(after, c.url, c.method) {
                                Some(i) => 0 <= i < after.len() && holds_field(after[i], c.field),
                                None => false,
                            }
                        } by {
                            let c = change_for(desired[k], observed, table, org, repo)->0;
                            lemma_dict_put_keys(fields, change.field, change.value, c.field);
                            if k < upto - 1 {
                                let i = call_to(before, c.url, c.method)->0;
                                if i != at {
                                    assert(after[i] == before[i]);
                                }
                            }
                        }
                        assert forall|i: int| 0 <= i < after.len() implies {
                            let call = (#[trigger] after[i]);
                            &&& call.body is Some
                            &&& call.body->0 is Dict
                            &&& body_fields(call).len() > 0
                            &&& forall|j: int|
                                0 <= j < body_fields(call).len() ==> asked(
                                    desired,
                                    observed,
                                    table,
                                    org,
                                    repo,
                                    upto,
                                    call.url,
                                    call.method,
                                    (#[trigger] body_fields(call)[j]).0,
                                    body_fields(call)[j].1,
                                )
                        } by {
                            let call = after[i];
                            if i == at {
                                assert forall|j: int| 0 <= j < body_fields(call).len() implies asked(
                                    desired,
                                    observed,
                                    table,
                                    org,
                                    repo,
                                    upto,
                                    call.url,
                                    call.method,
                                    (#[trigger] body_fields(call)[j]).0,
                                    body_fields(call)[j].1,
                                ) by {
                                    lemma_dict_put_entries(fields, change.field, change.value, j);
                                    if put[j] == (change.field, change.value) {
                                        assert(change_for(
                                            desired[upto - 1],
                                            observed,
                                            table,
                                            org,
                                            repo,
                                        ) == Some(
                                            Change {
                                                url: call.url,
                                                method: call.method,
                                                field: put[j].0,
                                                value: put[j].1,
                                            },
                                        ));
                                    } else {
                                        let old_call = before[at];
                                        assert(asked(
                                            desired,
                                            observed,
                                            table,
                                            org,
                                            repo,
                                            upto - 1,
                                            old_call.url,
                                            old_call.method,
                                            body_fields(old_call)[j].0,
                                            body_fields(old_call)[j].1,
                                        ));
                                    }
                                }
                            } else {
                                assert(call == before[i]);
                                assert forall|j: int| 0 <= j < body_fields(call).len() implies asked(
                                    desired,
                                    observed,
                                    table,
                                    org,
                                    repo,
                                    upto,
                                    call.url,
                                    call.method,
                                    (#[trigger] body_fields(call)[j]).0,
                                    body_fields(call)[j].1,
                                ) by {
                                    assert(asked(
                                        desired,
                                        observed,
                                        table,
                                        org,
                                        repo,
                                        upto - 1,
                                        call.url,
                                        call.method,
                                        body_fields(call)[j].0,
                                        body_fields(call)[j].1,
                                    ));
                                }
                            }
                        }
                    },
                    None => {
                        assert(targets(after) =~= targets(before).push(target));
                        let fresh = after[before.len() as int];
                        let one = seq![(change.field, change.value)];
                        assert(body_fields(fresh) == one);
                        lemma_key_position_is(one, change.field, 0);
                        assert forall|k: int|
                            0 <= k < upto && (#[trigger] change_for(
                                desired[k],
                                observed,
                                table,
                                org,
                                repo,
                            )) is Some implies {
                            let c = change_for(desired[k], observed, table, org, repo)->0;
                            match call_to(after, c.url, c.method) {
                                Some(i) => 0 <= i < after.len() && holds_field(after[i], c.field),
                                None => false,
                            }
                        } by {
                            let c = change_for(desired[k], observed, table, org, repo)->0;
                            targets(after).index_of_first_ensures((c.url, c.method));
                            targets(before).index_of_first_ensures((c.url, c.method));
                            if k < upto - 1 {
                                let i = call_to(before, c.url, c.method)->0;
                                assert(targets(after)[i] == (c.url, c.method));
                                assert(after[i] == before[i]);
                                let i2 = call_to(after, c.url, c.method)->0;
                                if i2 < i {
                                    assert(targets(before)[i2] == targets(after)[i2]);
                                }
                            } else {
                                assert(targets(after)[before.len() as int] == target);
                                let i2 = call_to(after, c.url, c.method)->0;
                                if i2 < before.len() {
                                    assert(targets(before)[i2] == targets(after)[i2]);
                                }
                            }
                        }
                        assert forall|i: int| 0 <= i < after.len() implies {
                            let call = (#[trigger] after[i]);
                            &&& call.body is Some
                            &&& call.body->0 is Dict
                            &&& body_fields(call).len() > 0
                            &&& forall|j: int|
                                0 <= j < body_fields(call).len() ==> asked(
                                    desired,
                                    observed,
                                    table,
                                    org,
                                    repo,
                                    upto,
                                    call.url,
                                    call.method,
                                    (#[trigger] body_fields(call)[j]).0,
                                    body_fields(call)[j].1,
                                )
                        } by {
                            let call = after[i];
                            if i == before.len() {
                                assert forall|j: int| 0 <= j < body_fields(call).len() implies asked(
                                    desired,
                                    observed,
                                    table,
                                    org,
                                    repo,
                                    upto,
                                    call.url,
                                    call.method,
                                    (#[trigger] body_fields(call)[j]).0,
                                    body_fields(call)[j].1,
                                ) by {
                                    assert(change_for(
                                        desired[upto - 1],
                                        observed,
                                        table,
                                        org,
                                        repo,
                                    ) == Some(
                                        Change {
                                            url: call.url,
                                            method: call.method,
                                            field: one[j].0,
                                            value: one[j].1,
                                        },
                                    ));
                                }
                            } else {
                                assert(call == before[i]);
                                assert forall|j: int| 0 <= j < body_fields(call).len() implies asked(
                                    desired,
                                    observed,
                                    table,
                                    org,
                                    repo,
                                    upto,
                                    call.url,
                                    call.method,
                                    (#[trigger] body_fields(call)[j]).0,
                                    body_fields(call)[j].1,
                                ) by {
                                    assert(asked(
                                        desired,
                                        observed,
                                        table,
                                        org,
                                        repo,
                                        upto - 1,
                                        call.url,
                                        call.method,
                                        body_fields(call)[j].0,
                                        body_fields(call)[j].1,
                                    ));
                                }
                            }
                        }
                    },
                }
            },
            None => {
                assert forall|i: int| 0 <= i < after.len() implies {
                    let call = (#[trigger] after[i]);
                    forall|j: int|
                        0 <= j < body_fields(call).len() ==> asked(
                            desired,
                            observed,
                            table,
                            org,
                            repo,
                            upto,
                            call.url,
                            call.method,
                            (#[trigger] body_fields(call)[j]).0,
                            body_fields(call)[j].1,
                        )
                } by {
                    let call = after[i];
                    assert forall|j: int| 0 <= j < body_fields(call).len() implies asked(
                        desired,
                        observed,
                        table,
                        org,
                        repo,
                        upto,
                        call.url,
                        call.method,
                        (#[trigger] body_fields(call)[j]).0,
                        body_fields(call)[j].1,
                    ) by {
                        assert(asked(
                            desired,
                            observed,
                            table,
                            org,
                            repo,
                            upto - 1,
                            call.url,
                            call.method,
                            body_fields(call)[j].0,
                            body_fields(call)[j].1,
                        ));
                    }
                }
            },
        }
    }
}

/// Where no desired setting asks for a change, nothing is written: no call
/// is planned for a repository whose mapped settings were all observed as
/// desired.
pub proof fn lemma_nothing_to_change_plans_nothing(
    desired: Seq<(Seq<char>, Tree)>,
    observed: Seq<(Seq<char>, Tree)>,
    table: Seq<MappingModel>,
    org: Seq<char>,
    repo: Seq<char>,
    upto: int,
)
    requires
        0 <= upto <= desired.len(),
        forall|k: int|
            0 <= k < upto ==> (#[trigger] change_for(desired[k], observed, table, org, repo))
                is None,
    ensures
        batched(desired, observed, table, org, repo, upto) == Seq::<CallModel>::empty(),
    decreases upto,
{
    if upto > 0 {
        lemma_nothing_to_change_plans_nothing(desired, observed, table, org, repo, upto - 1);
        assert(change_for(desired[upto - 1], observed, table, org, repo) is None);
    }
}

/// A field that only one desired setting writes holds the desired value.
/// Where a desired setting asks for a change, and no other desired setting
/// writes a field of the same name to the same address by the same method,
/// the call that goes there holds the desired value under the field.
pub proof fn lemma_single_writer_holds_desired_value(
    desired: Seq<(Seq<char>, Tree)>,
    observed: Seq<(Seq<char>, Tree)>,
    table: Seq<MappingModel>,
    org: Seq<char>,
    repo: Seq<char>,
    at: int,
)
    requires
        0 <= at < desired.len(),
        change_for(desired[at], observed, table, org, repo) is Some,
        forall|k: int|
            0 <= k < desired.len() && k != at ==> match (#[trigger] change_for(
                desired[k],
                observed,
                table,
                org,
                repo,
            )) {
                Some(other) => {
                    let change = change_for(desired[at], observed, table, org, repo)->0;
                    other.url != change.url || other.method != change.method || other.field
                        != change.field
                },
                None => true,
            },
    ensures
        ({
            let calls = settings_calls(desired, observed, table, org, repo);
            let change = change_for(desired[at], observed, table, org, repo)->0;
            match call_to(calls, change.url, change.method) {
                Some(i) => 0 <= i < calls.len() && dict_get(body_fields(calls[i]), change.field)
                    == Some(desired[at].1),
                None => false,
            }
        }),
{
    let calls = settings_calls(desired, observed, table, org, repo);
    let change = change_for(desired[at], observed, table, org, repo)->0;
    lemma_batched(desired, observed, table, org, repo, desired.len() as int);
    targets(calls).index_of_first_ensures((change.url, change.method));
    let i = call_to(calls, change.url, change.method)->0;
    assert(targets(calls)[i] == (change.url, change.method));
    let call = calls[i];
    let fields = body_fields(call);
    lemma_key_position(fields, change.field);
    let p = key_position(fields, change.field)->0;
    assert(asked(
        desired,
        observed,
        table,
        org,
        repo,
        desired.len() as int,
        call.url,
        call.method,
        fields[p].0,
        fields[p].1,
    ));
    let k = choose|k: int|
        0 <= k < desired.len() && k < desired.len() && #[trigger] change_for(
            desired[k],
            observed,
            table,
            org,
            repo,
        ) == Some(
            Change { url: call.url, method: call.method, field: fields[p].0, value: fields[p].1 },
        );
    assert(k == at);
}

/// Two desired settings that differ from what was observed and are written
/// to the same address by the same method share one call: exactly one of
/// the planned calls goes there, and its body holds both fields.
pub proof fn lemma_shared_endpoint_one_call(
    desired: Seq<(Seq<char>, Tree)>,
    observed: Seq<(Seq<char>, Tree)>,
    table: Seq<MappingModel>,
    org: Seq<char>,
    repo: Seq<char>,
    first: int,
    second: int,
)
    requires
        0 <= first < desired.len(),
        0 <= second < desired.len(),
        change_for(desired[first], observed, table, org, repo) is Some,
        change_for(desired[second], observed, table, org, repo) is Some,
        change_for(desired[first], observed, table, org, repo)->0.url == change_for(
            desired[second],
            observed,
            table,
            org,
            repo,
        )->0.url,
        change_for(desired[first], observed, table, org, repo)->0.method == change_for(
            desired[second],
            observed,
            table,
            org,
            repo,
        )->0.method,
    ensures
        ({
            let calls = settings_calls(desired, observed, table, org, repo);
            let a = change_for(desired[first], observed, table, org, repo)->0;
            let b = change_for(desired[second], observed, table, org, repo)->0;
            exists|i: int|
                {
                    &&& 0 <= i < calls.len()
                    &&& (#[trigger] calls[i]).url == a.url
                    &&& calls[i].method == a.method
                    &&& holds_field(calls[i], a.field)
                    &&& holds_field(calls[i], b.field)
                    &&& forall|j: int|
                        0 <= j < calls.len() && (#[trigger] calls[j]).url == a.url
                            && calls[j].method == a.method ==> j == i
                }
        }),
{
    let calls = settings_calls(desired, observed, table, org, repo);
    let a = change_for(desired[first], observed, table, org, repo)->0;
    let b = change_for(desired[second], observed, table, org, repo)->0;
    lemma_batched(desired, observed, table, org, repo, desired.len() as int);
    targets(calls).index_of_first_ensures((a.url, a.method));
    let i = call_to(calls, a.url, a.method)->0;
    assert(targets(calls)[i] == (a.url, a.method));
    assert forall|j: int|
        0 <= j < calls.len() && (#[trigger] calls[j]).url == a.url && calls[j].method
            == a.method implies j == i by {
        assert(targets(calls)[j] == targets(calls)[i]);
    }
    assert(calls[i].url == a.url);
}

} // verus!
