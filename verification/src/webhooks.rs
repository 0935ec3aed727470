//! The webhook reconciler: create the webhook of a repository, update it, or
//! leave it alone.

use crate::api_mapping::HttpMethod;
use crate::config::{texts, WebhookConfig, WebhookModel};
use crate::error::{AppError, ErrorModel, outcome};
use crate::github::{Action, ActionModel, ApiCall, CallModel, GitHubClient, require, required};
use crate::node::{lemma_view_mapping, lemma_view_sequence, Node, Tree};
use crate::text::{find_text, lemma_position_of, position_of, same_text};
use crate::urls::{hook_url, hooks_url};
use vstd::prelude::*;

verus! {

broadcast use vstd::std_specs::vec::group_vec_axioms;

/// Where a webhook posts and in which content type, as GitHub reports it.
#[derive(Debug)]
pub struct WebhookConfigResponse {
    pub url: String,
    pub content_type: String,
}

/// A webhook of a repository as GitHub reports it.
#[derive(Debug)]
pub struct WebhookResponse {
    pub id: Option<i64>,
    pub url: String,
    pub config: WebhookConfigResponse,
    pub events: Vec<String>,
}

/// The model of a [`WebhookResponse`].
pub struct HookModel {
    pub id: Option<i64>,
    pub url: Seq<char>,
    pub target: Seq<char>,
    pub content_type: Seq<char>,
    pub events: Seq<Seq<char>>,
}

impl View for WebhookResponse {
    type V = HookModel;

    open spec fn view(&self) -> HookModel {
        HookModel {
            id: self.id,
            url: self.url@,
            target: self.config.url@,
            content_type: self.config.content_type@,
            events: texts(self.events@),
        }
    }
}

impl DeepView for WebhookResponse {
    type V = HookModel;

    open spec fn deep_view(&self) -> HookModel {
        self@
    }
}

/// The addresses to which the hooks post, in order.
pub open spec fn hook_targets(hooks: Seq<HookModel>) -> Seq<Seq<char>> {
    Seq::new(hooks.len(), |i: int| hooks[i].target)
}

/// The webhook that posts to `url`: the first such one.
pub open spec fn hook_for(hooks: Seq<HookModel>, url: Seq<char>) -> Option<HookModel> {
    match position_of(hook_targets(hooks), url) {
        Some(i) => Some(hooks[i]),
        None => None,
    }
}

/// Two lists name the same events, whatever their order and however often.
pub open spec fn same_events(a: Seq<Seq<char>>, b: Seq<Seq<char>>) -> bool {
    forall|event: Seq<char>| a.contains(event) <==> b.contains(event)
}

/// What is to be done about a webhook.
pub enum WebhookDecision {
    /// No webhook posts to the desired address: create one.
    Create,
    /// A webhook posts there on other events or in another content type:
    /// update the one with this id.
    Update(Option<i64>),
    /// A webhook posts there as desired.
    Nothing,
}

/// What is to be done so that a webhook posts to the desired address on the
/// desired events in the desired content type.
pub open spec fn webhook_decision(hooks: Seq<HookModel>, desired: WebhookModel) -> WebhookDecision {
    match hook_for(hooks, desired.url) {
        None => WebhookDecision::Create,
        Some(hook) => if !same_events(hook.events, desired.events) || hook.content_type
            != desired.content_type {
            WebhookDecision::Update(hook.id)
        } else {
            WebhookDecision::Nothing
        },
    }
}

/// A list of texts as a value.
pub open spec fn text_list(items: Seq<Seq<char>>) -> Tree {
    Tree::List(Seq::new(items.len(), |i: int| Tree::Text(items[i])))
}

/// The `config` field of a webhook's body.
pub open spec fn hook_config_body(desired: WebhookModel) -> Tree {
    Tree::Dict(
        seq![
            ("url"@, Tree::Text(desired.url)),
            ("content_type"@, Tree::Text(desired.content_type)),
            ("insecure_ssl"@, Tree::Text("0"@)),
        ],
    )
}

/// The body that creates a webhook.
pub open spec fn create_hook_body(desired: WebhookModel) -> Tree {
    Tree::Dict(
        seq![
            ("name"@, Tree::Text("web"@)),
            ("active"@, Tree::Bool(true)),
            ("events"@, text_list(desired.events)),
            ("config"@, hook_config_body(desired)),
        ],
    )
}

/// The body that updates a webhook.
pub open spec fn update_hook_body(desired: WebhookModel) -> Tree {
    Tree::Dict(seq![("events"@, text_list(desired.events)), ("config"@, hook_config_body(desired))])
}

/// The call that creates the webhook of a repository.
pub open spec fn create_hook_call(org: Seq<char>, repo: Seq<char>, desired: WebhookModel) -> CallModel {
    CallModel {
        method: HttpMethod::Post,
        url: hooks_url(org, repo),
        body: Some(create_hook_body(desired)),
    }
}

/// The call that updates a webhook of a repository.
pub open spec fn update_hook_call(
    org: Seq<char>,
    repo: Seq<char>,
    id: int,
    desired: WebhookModel,
) -> CallModel {
    CallModel {
        method: HttpMethod::Patch,
        url: hook_url(org, repo, id),
        body: Some(update_hook_body(desired)),
    }
}

/// The update of a webhook whose id was not reported, as far as it can be
/// told: it goes to one of the webhooks of the repository.
pub open spec fn update_unknown_hook_call(
    org: Seq<char>,
    repo: Seq<char>,
    desired: WebhookModel,
) -> CallModel {
    CallModel {
        method: HttpMethod::Patch,
        url: hooks_url(org, repo),
        body: Some(update_hook_body(desired)),
    }
}

/// What the webhook reconciler plans: the actions, or the reason why it
/// cannot plan any. A webhook that has to be updated but was reported
/// without an id cannot be updated: a real run fails, a dry run reports
/// the update as far as it can be told.
pub open spec fn webhook_plan(
    org: Seq<char>,
    repo: Seq<char>,
    hooks: Seq<HookModel>,
    desired: WebhookModel,
    dry_run: bool,
) -> Result<Seq<ActionModel>, ErrorModel> {
    match webhook_decision(hooks, desired) {
        WebhookDecision::Create => Ok(seq![required(create_hook_call(org, repo, desired), dry_run)]),
        WebhookDecision::Update(Some(id)) => Ok(
            seq![required(update_hook_call(org, repo, id as int, desired), dry_run)],
        ),
        WebhookDecision::Update(None) => if dry_run {
            Ok(seq![ActionModel::Announce(update_unknown_hook_call(org, repo, desired))])
        } else {
            Err(ErrorModel::GitHubApi("Webhook to update has no id"@))
        },
        WebhookDecision::Nothing => Ok(Seq::empty()),
    }
}

/// A text as a value.
pub fn text_value(s: &str) -> (r: Node)
    ensures
        r@ == Tree::Text(s@),
{
    Node::String(s.to_string())
}

/// A list of texts as a value.
pub fn text_list_value(items: &Vec<String>) -> (r: Node)
    ensures
        r@ == text_list(texts(items@)),
{
    let mut out: Vec<Node> = Vec::new();
    let mut i: usize = 0;
    while i < items.len()
        invariant
            i <= items.len(),
            out.len() == i,
            forall|k: int| 0 <= k < i ==> out@[k]@ == Tree::Text(items@[k]@),
        decreases items.len() - i,
    {
        out.push(Node::String(items[i].clone()));
        i += 1;
    }
    proof {
        lemma_view_sequence(out);
        assert(crate::node::items_view(out@) =~= text_list(texts(items@))->List_0);
    }
    Node::Sequence(out)
}

/// A mapping of the given entries as a value.
pub fn mapping_value(entries: Vec<(String, Node)>) -> (r: Node)
    ensures
        r@ == Tree::Dict(crate::node::entries_view(entries@)),
{
    proof {
        lemma_view_mapping(entries);
    }
    Node::Mapping(entries)
}

/// Tests whether every one of `a` is among `b`.
fn all_among(a: &Vec<String>, b: &Vec<String>) -> (r: bool)
    ensures
        r == forall|event: Seq<char>| texts(a@).contains(event) ==> texts(b@).contains(event),
{
    let ghost av = texts(a@);
    let ghost bv = texts(b@);
    let mut i: usize = 0;
    while i < a.len()
        invariant
            i <= a.len(),
            av == texts(a@),
            bv == texts(b@),
            forall|k: int| 0 <= k < i ==> bv.contains(#[trigger] av[k]),
        decreases a.len() - i,
    {
        proof {
            assert(bv =~= Seq::new(b@.len(), |k: int| b@[k]@));
            lemma_position_of(bv, av[i as int]);
        }
        if find_text(b, a[i].as_str()).is_none() {
            proof {
                assert(av.contains(av[i as int]));
                assert(!bv.contains(av[i as int]));
            }
            return false;
        }
        proof {
            let p = position_of(bv, av[i as int])->0;
            assert(bv[p] == av[i as int]);
        }
        i += 1;
    }
    true
}

/// Tests whether two lists name the same events.
pub fn events_match(a: &Vec<String>, b: &Vec<String>) -> (r: bool)
    ensures
        r == same_events(texts(a@), texts(b@)),
{
    all_among(a, b) && all_among(b, a)
}

/// Finds the webhook that posts to `url`.
pub fn find_hook<'a>(hooks: &'a Vec<WebhookResponse>, url: &str) -> (r: Option<&'a WebhookResponse>)
    ensures
        r.deep_view() == hook_for(hooks.deep_view(), url@),
{
    let ghost all = hook_targets(hooks.deep_view());
    let mut i: usize = 0;
    while i < hooks.len()
        invariant
            i <= hooks.len(),
            all == hook_targets(hooks.deep_view()),
            forall|j: int| 0 <= j < i ==> all[j] != url@,
        decreases hooks.len() - i,
    {
        if same_text(hooks[i].config.url.as_str(), url) {
            proof {
                crate::text::lemma_position_of_is(all, url@, i as int);
            }
            return Some(&hooks[i]);
        }
        i += 1;
    }
    proof {
        crate::text::lemma_position_of_none(all, url@);
    }
    None
}

impl GitHubClient {
    /// The body of the `config` field of a webhook.
    fn hook_config(webhook: &WebhookConfig) -> (r: Node)
        ensures
            r@ == hook_config_body(webhook@),
    {
        let entries: Vec<(String, Node)> = vec![
            ("url".to_string(), text_value(webhook.url.as_str())),
            ("content_type".to_string(), text_value(webhook.content_type.as_str())),
            ("insecure_ssl".to_string(), text_value("0")),
        ];
        let r = mapping_value(entries);
        proof {
            assert(r@->Dict_0 =~= hook_config_body(webhook@)->Dict_0);
        }
        r
    }

    /// The call that creates the webhook of a repository.
    pub fn create_webhook(&self, repo_name: &str, webhook: &WebhookConfig) -> (r: ApiCall)
        ensures
            r@ == create_hook_call(self.org@, repo_name@, webhook@),
    {
        let entries: Vec<(String, Node)> = vec![
            ("name".to_string(), text_value("web")),
            ("active".to_string(), Node::Bool(true)),
            ("events".to_string(), text_list_value(&webhook.events)),
            ("config".to_string(), Self::hook_config(webhook)),
        ];
        let body = mapping_value(entries);
        proof {
            assert(body@->Dict_0 =~= create_hook_body(webhook@)->Dict_0);
        }
        ApiCall { method: HttpMethod::Post, url: self.hooks_address(repo_name), body: Some(body) }
    }

    /// The call that updates a webhook of a repository.
    pub fn update_webhook(&self, repo_name: &str, hook_id: i64, webhook: &WebhookConfig) -> (r:
        ApiCall)
        ensures
            r@ == update_hook_call(self.org@, repo_name@, hook_id as int, webhook@),
    {
        let entries: Vec<(String, Node)> = vec![
            ("events".to_string(), text_list_value(&webhook.events)),
            ("config".to_string(), Self::hook_config(webhook)),
        ];
        let body = mapping_value(entries);
        proof {
            assert(body@->Dict_0 =~= update_hook_body(webhook@)->Dict_0);
        }
        ApiCall {
            method: HttpMethod::Patch,
            url: self.hook_address(repo_name, hook_id),
            body: Some(body),
        }
    }

    /// Plans what brings the webhook of a repository to the desired one,
    /// given the webhooks that the repository has: create it where none
    /// posts to the desired address, update the one that does where its
    /// events or its content type differ, and nothing otherwise. In a dry
    /// run the call is reported, not sent, and the plan never fails. In a
    /// real run a webhook that would have to be updated but was reported
    /// without an id is an error.
    pub fn manage_webhooks(
        &self,
        repo_name: &str,
        webhook: &WebhookConfig,
        current_hooks: &Vec<WebhookResponse>,
        dry_run: bool,
    ) -> (r: Result<Vec<Action>, AppError>)
        ensures
            outcome(r) == webhook_plan(
                self.org@,
                repo_name@,
                current_hooks.deep_view(),
                webhook@,
                dry_run,
            ),
    {
        let mut actions: Vec<Action> = Vec::new();
        match find_hook(current_hooks, webhook.url.as_str()) {
            None => {
                actions.push(require(self.create_webhook(repo_name, webhook), dry_run));
                proof {
                    assert(actions.deep_view() =~= seq![
                        required(create_hook_call(self.org@, repo_name@, webhook@), dry_run),
                    ]);
                }
                Ok(actions)
            },
            Some(hook) => {
                if !events_match(&hook.events, &webhook.events) || !same_text(
                    hook.config.content_type.as_str(),
                    webhook.content_type.as_str(),
                ) {
                    match hook.id {
                        Some(id) => {
                            actions.push(
                                require(self.update_webhook(repo_name, id, webhook), dry_run),
                            );
                            proof {
                                assert(actions.deep_view() =~= seq![
                                    required(
                                        update_hook_call(
                                            self.org@,
                                            repo_name@,
                                            id as int,
                                            webhook@,
                                        ),
                                        dry_run,
                                    ),
                                ]);
                            }
                            Ok(actions)
                        },
                        None => {
                            if dry_run {
                                let entries: Vec<(String, Node)> = vec![
                                    ("events".to_string(), text_list_value(&webhook.events)),
                                    ("config".to_string(), Self::hook_config(webhook)),
                                ];
                                let body = mapping_value(entries);
                                proof {
                                    assert(body@->Dict_0 =~= update_hook_body(webhook@)->Dict_0);
                                }
                                let call = ApiCall {
                                    method: HttpMethod::Patch,
                                    url: self.hooks_address(repo_name),
                                    body: Some(body),
                                };
                                actions.push(Action::Announce(call));
                                proof {
                                    assert(actions.deep_view() =~= seq![
                                        ActionModel::Announce(
                                            update_unknown_hook_call(
                                                self.org@,
                                                repo_name@,
                                                webhook@,
                                            ),
                                        ),
                                    ]);
                                }
                                Ok(actions)
                            } else {
                                Err(AppError::GitHubApi("Webhook to update has no id".to_string()))
                            }
                        },
                    }
                } else {
                    proof {
                        assert(actions.deep_view() =~= Seq::<ActionModel>::empty());
                    }
                    Ok(actions)
                }
            },
        }
    }
}

} // verus!
