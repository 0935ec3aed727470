//! The reconcilers: what to write to GitHub so that the organization comes
//! to match its configuration.

use crate::api_mapping::{HttpMethod, MappingModel, MappingTable, table_lookup};
use crate::config::{Repo, RepoSettings};
use crate::node::{dict_get, key_position, lemma_key_position, lemma_view_mapping, Node, Tree};
use crate::text::{joined, replace_all, replaced, same_text};
use vstd::prelude::*;

verus! {

broadcast use vstd::std_specs::vec::group_vec_axioms;

/// The address of the GitHub API.
pub const GITHUB_API_BASE_URL: &'static str = "https://api.github.com";

/// The address of a path of the API.
pub open spec fn api_url(path: Seq<char>) -> Seq<char> {
    "https://api.github.com"@ + path
}

/// A call that writes: its method, its address and its JSON body.
#[derive(Debug)]
pub struct ApiCall {
    pub method: HttpMethod,
    pub url: String,
    pub body: Option<Node>,
}

/// The model of an [`ApiCall`].
pub struct CallModel {
    pub method: HttpMethod,
    pub url: Seq<char>,
    pub body: Option<Tree>,
}

impl View for ApiCall {
    type V = CallModel;

    open spec fn view(&self) -> CallModel {
        CallModel { method: self.method, url: self.url@, body: self.body.deep_view() }
    }
}

impl DeepView for ApiCall {
    type V = CallModel;

    open spec fn deep_view(&self) -> CallModel {
        self@
    }
}

/// What a reconciler asks for.
#[derive(Debug)]
pub enum Action {
    /// Send the call; if it fails, the run ends with its error.
    Send(ApiCall),
    /// Send the call; if it fails, report the failure and go on.
    Attempt(ApiCall),
    /// Send nothing: report the call that a real run would send.
    Announce(ApiCall),
}

/// The model of an [`Action`].
pub enum ActionModel {
    Send(CallModel),
    Attempt(CallModel),
    Announce(CallModel),
}

impl View for Action {
    type V = ActionModel;

    open spec fn view(&self) -> ActionModel {
        match self {
            Action::Send(c) => ActionModel::Send(c@),
            Action::Attempt(c) => ActionModel::Attempt(c@),
            Action::Announce(c) => ActionModel::Announce(c@),
        }
    }
}

impl DeepView for Action {
    type V = ActionModel;

    open spec fn deep_view(&self) -> ActionModel {
        self@
    }
}

impl ActionModel {
    /// The call that the action sends or reports.
    pub open spec fn call(self) -> CallModel {
        match self {
            ActionModel::Send(c) => c,
            ActionModel::Attempt(c) => c,
            ActionModel::Announce(c) => c,
        }
    }
}

/// The action for a call that must succeed: sent in a real run, reported in
/// a dry run.
pub open spec fn required(call: CallModel, dry_run: bool) -> ActionModel {
    if dry_run {
        ActionModel::Announce(call)
    } else {
        ActionModel::Send(call)
    }
}

/// The action for a call that may fail: attempted in a real run, reported in
/// a dry run.
pub open spec fn tolerated(call: CallModel, dry_run: bool) -> ActionModel {
    if dry_run {
        ActionModel::Announce(call)
    } else {
        ActionModel::Attempt(call)
    }
}

/// The endpoint of a template for an organization and a repository:
/// `{org}` and `{owner}` give way to the organization, then `{repo}` to the
/// repository.
pub open spec fn resolved_endpoint(template: Seq<char>, org: Seq<char>, repo: Seq<char>) -> Seq<
    char,
> {
    replaced(replaced(replaced(template, "{org}"@, org), "{owner}"@, org), "{repo}"@, repo)
}

/// Resolves the placeholders of an endpoint template.
pub fn resolve_endpoint(template: &str, org: &str, repo: &str) -> (r: String)
    ensures
        r@ == resolved_endpoint(template@, org@, repo@),
{
    let a: String = replace_all(template, "{org}", org);
    let b: String = replace_all(a.as_str(), "{owner}", org);
    replace_all(b.as_str(), "{repo}", repo)
}

/// The desired value of a setting is not what was observed: the key was not
/// observed at all, or with another value.
pub open spec fn differs(observed: Seq<(Seq<char>, Tree)>, key: Seq<char>, desired: Tree) -> bool {
    match dict_get(observed, key) {
        Some(current) => !current.same(desired),
        None => true,
    }
}

/// One field to write: where it goes and what it holds.
pub struct Change {
    pub url: Seq<char>,
    pub method: HttpMethod,
    pub field: Seq<char>,
    pub value: Tree,
}

/// The change that a desired setting asks for: none where the table has no
/// mapping for its key, and none where the observed value is the desired one.
pub open spec fn change_for(
    entry: (Seq<char>, Tree),
    observed: Seq<(Seq<char>, Tree)>,
    table: Seq<MappingModel>,
    org: Seq<char>,
    repo: Seq<char>,
) -> Option<Change> {
    match table_lookup(table, entry.0) {
        Some(mapping) => if differs(observed, entry.0, entry.1) {
            Some(
                Change {
                    url: api_url(resolved_endpoint(mapping.endpoint, org, repo)),
                    method: mapping.method,
                    field: mapping.json_path,
                    value: entry.1,
                },
            )
        } else {
            None
        },
        None => None,
    }
}

/// Where each call of a list goes: its address and its method.
pub open spec fn targets(calls: Seq<CallModel>) -> Seq<(Seq<char>, HttpMethod)> {
    Seq::new(calls.len(), |i: int| (calls[i].url, calls[i].method))
}

/// The fields of a call's body.
pub open spec fn body_fields(call: CallModel) -> Seq<(Seq<char>, Tree)> {
    match call.body {
        Some(Tree::Dict(fields)) => fields,
        _ => Seq::empty(),
    }
}

/// The entries with `value` under `key`: in place of the first entry under
/// that key, or behind all entries if there is none.
pub open spec fn dict_put(entries: Seq<(Seq<char>, Tree)>, key: Seq<char>, value: Tree) -> Seq<
    (Seq<char>, Tree),
> {
    match key_position(entries, key) {
        Some(i) => entries.update(i, (key, value)),
        None => entries.push((key, value)),
    }
}

/// The calls with one more change: the field joins the body of the call
/// that goes to the same address by the same method, or a new call is made
/// for it behind the others.
pub open spec fn add_change(calls: Seq<CallModel>, change: Change) -> Seq<CallModel> {
    match targets(calls).index_of_first((change.url, change.method)) {
        Some(i) => calls.update(
            i,
            CallModel {
                method: change.method,
                url: change.url,
                body: Some(Tree::Dict(dict_put(body_fields(calls[i]), change.field, change.value))),
            },
        ),
        None => calls.push(
            CallModel {
                method: change.method,
                url: change.url,
                body: Some(Tree::Dict(seq![(change.field, change.value)])),
            },
        ),
    }
}

/// The calls that write the changes of the first `upto` desired settings,
/// one call for each address and method.
pub open spec fn batched(
    desired: Seq<(Seq<char>, Tree)>,
    observed: Seq<(Seq<char>, Tree)>,
    table: Seq<MappingModel>,
    org: Seq<char>,
    repo: Seq<char>,
    upto: int,
) -> Seq<CallModel>
    decreases upto,
{
    if upto <= 0 {
        Seq::empty()
    } else {
        let calls = batched(desired, observed, table, org, repo, upto - 1);
        match change_for(desired[upto - 1], observed, table, org, repo) {
            Some(change) => add_change(calls, change),
            None => calls,
        }
    }
}

/// The calls that bring the observed settings of a repository to the desired
/// ones.
pub open spec fn settings_calls(
    desired: Seq<(Seq<char>, Tree)>,
    observed: Seq<(Seq<char>, Tree)>,
    table: Seq<MappingModel>,
    org: Seq<char>,
    repo: Seq<char>,
) -> Seq<CallModel> {
    batched(desired, observed, table, org, repo, desired.len() as int)
}

/// Each call as an action that must succeed.
pub open spec fn all_required(calls: Seq<CallModel>, dry_run: bool) -> Seq<ActionModel> {
    Seq::new(calls.len(), |i: int| required(calls[i], dry_run))
}

/// Wraps a call that must succeed.
pub fn require(call: ApiCall, dry_run: bool) -> (r: Action)
    ensures
        r@ == required(call@, dry_run),
{
    if dry_run {
        Action::Announce(call)
    } else {
        Action::Send(call)
    }
}

/// Wraps a call that may fail.
pub fn tolerate(call: ApiCall, dry_run: bool) -> (r: Action)
    ensures
        r@ == tolerated(call@, dry_run),
{
    if dry_run {
        Action::Announce(call)
    } else {
        Action::Attempt(call)
    }
}

/// Finds the call that goes to `url` by `method`.
fn find_target(calls: &Vec<ApiCall>, url: &str, method: HttpMethod) -> (r: Option<usize>)
    ensures
        match r {
            Some(i) => i < calls.len() && targets(calls.deep_view()).index_of_first(
                (url@, method),
            ) == Some(i as int),
            None => targets(calls.deep_view()).index_of_first((url@, method)) is None,
        },
{
    let ghost all = targets(calls.deep_view());
    let mut i: usize = 0;
    while i < calls.len()
        invariant
            i <= calls.len(),
            all == targets(calls.deep_view()),
            forall|j: int| 0 <= j < i ==> all[j] != (url@, method),
        decreases calls.len() - i,
    {
        if calls[i].method == method && same_text(calls[i].url.as_str(), url) {
            proof {
                all.index_of_first_ensures((url@, method));
                assert(all[i as int] == (url@, method));
            }
            return Some(i);
        }
        i += 1;
    }
    proof {
        all.index_of_first_ensures((url@, method));
    }
    None
}

/// The organization that is reconciled, and the token that authorizes the
/// calls.
#[derive(Debug)]
pub struct GitHubClient {
    pub token: String,
    pub org: String,
}

impl GitHubClient {
    /// A client for an organization, with the token that authorizes it.
    pub fn new(token: &str, org: &str) -> (r: Self)
        ensures
            r.token@ == token@,
            r.org@ == org@,
    {
        GitHubClient { token: token.to_string(), org: org.to_string() }
    }

    /// Plans the writes that bring the settings of a repository from what was
    /// observed to what is desired: one call for each address and method,
    /// holding the fields that differ. In a dry run the calls are reported,
    /// not sent.
    pub fn update_repo_settings(
        &self,
        repo: &Repo,
        observed: &RepoSettings,
        mapping: &MappingTable,
        dry_run: bool,
    ) -> (r: Vec<Action>)
        ensures
            r.deep_view() == all_required(
                settings_calls(repo.settings@, observed@, mapping@, self.org@, repo.name@),
                dry_run,
            ),
    {
        let ghost desired = repo.settings@;
        let mut calls: Vec<ApiCall> = Vec::new();
        let mut i: usize = 0;
        proof {
            assert(calls.deep_view() =~= batched(
                desired,
                observed@,
                mapping@,
                self.org@,
                repo.name@,
                0,
            ));
        }
        while i < repo.settings.entries.len()
            invariant
                i <= repo.settings.entries.len(),
                desired == repo.settings@,
                calls.deep_view() == batched(
                    desired,
                    observed@,
                    mapping@,
                    self.org@,
                    repo.name@,
                    i as int,
                ),
            decreases repo.settings.entries.len() - i,
        {
            let key: &String = &repo.settings.entries[i].0;
            let value: &Node = &repo.settings.entries[i].1;
            let ghost before = calls.deep_view();
            match mapping.get(key.as_str()) {
                Some(field) => {
                    let changed: bool = match observed.get(key.as_str()) {
                        Some(current) => !current.same_as(value),
                        None => true,
                    };
                    if changed {
                        let path: String = resolve_endpoint(
                            field.endpoint.as_str(),
                            self.org.as_str(),
                            repo.name.as_str(),
                        );
                        let url: String = joined(GITHUB_API_BASE_URL, path.as_str());
                        let ghost change = Change {
                            url: url@,
                            method: field.method,
                            field: field.json_path@,
                            value: value@,
                        };
                        assert(change_for(
                            desired[i as int],
                            observed@,
                            mapping@,
                            self.org@,
                            repo.name@,
                        ) == Some(change));
                        match find_target(&calls, url.as_str(), field.method) {
                            Some(at) => {
                                let call: ApiCall = calls.remove(at);
                                let mut fields: RepoSettings = match call.body {
                                    Some(Node::Mapping(entries)) => {
                                        proof {
                                            lemma_view_mapping(entries);
                                        }
                                        RepoSettings { entries }
                                    },
                                    _ => RepoSettings::new(),
                                };
                                assert(fields@ == body_fields(before[at as int]));
                                fields.insert(field.json_path.clone(), value.duplicate());
                                proof {
                                    lemma_view_mapping(fields.entries);
                                }
                                let merged = ApiCall {
                                    method: field.method,
                                    url,
                                    body: Some(Node::Mapping(fields.entries)),
                                };
                                calls.insert(at, merged);
                                proof {
                                    assert(calls.deep_view() =~= add_change(before, change));
                                }
                            },
                            None => {
                                let mut fields: RepoSettings = RepoSettings::new();
                                fields.insert(field.json_path.clone(), value.duplicate());
                                proof {
                                    lemma_view_mapping(fields.entries);
                                    lemma_key_position(
                                        Seq::<(Seq<char>, Tree)>::empty(),
                                        field.json_path@,
                                    );
                                    assert(fields@ =~= seq![(change.field, change.value)]);
                                }
                                let fresh = ApiCall {
                                    method: field.method,
                                    url,
                                    body: Some(Node::Mapping(fields.entries)),
                                };
                                calls.push(fresh);
                                proof {
                                    assert(calls.deep_view() =~= add_change(before, change));
                                }
                            },
                        }
                    }
                },
                None => {},
            }
            i += 1;
        }
        let ghost planned = calls.deep_view();
        let mut actions: Vec<Action> = Vec::new();
        while calls.len() > 0
            invariant
                actions.len() + calls.len() == planned.len(),
                forall|k: int| 0 <= k < actions.len() ==> actions@[k]@ == required(planned[k], dry_run),
                forall|k: int|
                    0 <= k < calls.len() ==> calls@[k]@ == planned[actions.len() + k],
            decreases calls.len(),
        {
            let call: ApiCall = calls.remove(0);
            actions.push(require(call, dry_run));
        }
        proof {
            assert(actions.deep_view() =~= all_required(planned, dry_run));
        }
        actions
    }
}

} // verus!
