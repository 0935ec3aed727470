//! The answers of GitHub as documents: which answers the client
//! understands, and what it reads out of each.

use crate::config::texts;
use crate::decode::{all_some, as_text, text_at, texts_of};
use crate::documents::{document, json_document, read_json, read_outcome};
use crate::error::{AppError, ErrorModel, outcome};
use crate::github::GitHubClient;
use crate::members::{PermissionDetails, TeamRepoModel, TeamRepoResponse, TeamResponse};
use crate::node::{
    dict_get, entries_view, find_entry, items_view, lemma_view_mapping, lemma_view_sequence, Node,
    NumberModel, Tree,
};
use crate::snapshot::{
    MemberObservation, MemberSeen, RepoObservation, RepoSeen, TeamObservation, TeamSeen,
};
use crate::webhooks::{HookModel, WebhookConfigResponse, WebhookResponse};
use vstd::prelude::*;

verus! {

broadcast use vstd::std_specs::vec::group_vec_axioms;

/// The flag under a key that must be there.
pub open spec fn bool_at(entries: Seq<(Seq<char>, Tree)>, key: Seq<char>) -> Option<bool> {
    match dict_get(entries, key) {
        Some(Tree::Bool(b)) => Some(b),
        _ => None,
    }
}

/// The identifier that a value is: an integer that fits; none where the
/// value is null; no identifier at all where it is anything else.
pub open spec fn id_of(t: Option<Tree>) -> Option<Option<i64>> {
    match t {
        None => Some(None),
        Some(Tree::Null) => Some(None),
        Some(Tree::Number(NumberModel::NegInt(n))) => Some(Some(n)),
        Some(Tree::Number(NumberModel::PosInt(n))) => if n <= i64::MAX {
            Some(Some(n as i64))
        } else {
            None
        },
        _ => None,
    }
}

/// The items of the list under a key that must be there.
pub open spec fn list_at(entries: Seq<(Seq<char>, Tree)>, key: Seq<char>) -> Option<Seq<Tree>> {
    match dict_get(entries, key) {
        Some(Tree::List(items)) => Some(items),
        _ => None,
    }
}

/// The webhook that an answer reports.
pub open spec fn hook_of(t: Tree) -> Option<HookModel> {
    match t {
        Tree::Dict(e) => match (id_of(dict_get(e, "id"@)), text_at(e, "url"@), dict_get(
            e,
            "config"@,
        ), list_at(e, "events"@)) {
            (Some(id), Some(url), Some(Tree::Dict(config)), Some(events)) => match (
                text_at(config, "url"@),
                text_at(config, "content_type"@),
                texts_of(events),
            ) {
                (Some(target), Some(content_type), Some(events)) => Some(
                    HookModel { id, url, target, content_type, events },
                ),
                _ => None,
            },
            _ => None,
        },
        _ => None,
    }
}

/// The webhooks that an answer reports: it must be a list of webhooks.
pub open spec fn hooks_of(t: Tree) -> Option<Seq<HookModel>> {
    match t {
        Tree::List(items) => all_some(Seq::new(items.len(), |i: int| hook_of(items[i]))),
        _ => None,
    }
}

/// What a team may do on a repository, as an answer reports it.
pub open spec fn permissions_of(t: Option<Tree>) -> Option<PermissionDetails> {
    match t {
        Some(Tree::Dict(e)) => match (bool_at(e, "pull"@), bool_at(e, "push"@), bool_at(
            e,
            "admin"@,
        )) {
            (Some(pull), Some(push), Some(admin)) => Some(PermissionDetails { pull, push, admin }),
            _ => None,
        },
        _ => None,
    }
}

/// The repository of a team that an answer reports.
pub open spec fn team_repo_of(t: Tree) -> Option<TeamRepoModel> {
    match t {
        Tree::Dict(e) => match (text_at(e, "name"@), permissions_of(dict_get(e, "permissions"@))) {
            (Some(name), Some(permissions)) => Some(TeamRepoModel { name, permissions }),
            _ => None,
        },
        _ => None,
    }
}

/// The repositories of a team that an answer reports: it must be a list of
/// them.
pub open spec fn team_repos_of(t: Tree) -> Option<Seq<TeamRepoModel>> {
    match t {
        Tree::List(items) => all_some(Seq::new(items.len(), |i: int| team_repo_of(items[i]))),
        _ => None,
    }
}

/// The text that a document holds under a key, if it is a mapping that
/// holds a text there.
pub open spec fn text_in(t: Tree, key: Seq<char>) -> Option<Seq<char>> {
    match t {
        Tree::Dict(e) => text_at(e, key),
        _ => None,
    }
}

/// The flag that a document holds under a key, if it is a mapping that
/// holds a flag there.
pub open spec fn bool_in(t: Tree, key: Seq<char>) -> Option<bool> {
    match t {
        Tree::Dict(e) => bool_at(e, key),
        _ => None,
    }
}

/// What an entry of the organization's list of repositories shows: the
/// name and the `private` mark, as far as the entry holds them.
pub open spec fn repo_listed(t: Tree) -> RepoSeen {
    RepoSeen {
        name: text_in(t, "name"@),
        private: bool_in(t, "private"@),
        settings: None,
        hooks: None,
    }
}

/// What the organization's list of repositories shows: it must be a list.
pub open spec fn repos_listed(t: Tree) -> Option<Seq<RepoSeen>> {
    match t {
        Tree::List(items) => Some(Seq::new(items.len(), |i: int| repo_listed(items[i]))),
        _ => None,
    }
}

/// What the organization's list of teams shows: of each entry the slug, as
/// far as the entry holds one. It must be a list.
pub open spec fn teams_listed(t: Tree) -> Option<Seq<TeamSeen>> {
    match t {
        Tree::List(items) => Some(
            Seq::new(
                items.len(),
                |i: int| TeamSeen { slug: text_in(items[i], "slug"@), members: None, repos: None },
            ),
        ),
        _ => None,
    }
}

/// What a list of members shows: of each entry the login, as far as the
/// entry holds one. It must be a list.
pub open spec fn members_listed(t: Tree) -> Option<Seq<MemberSeen>> {
    match t {
        Tree::List(items) => Some(
            Seq::new(
                items.len(),
                |i: int| MemberSeen { login: text_in(items[i], "login"@), role: None },
            ),
        ),
        _ => None,
    }
}

/// The logins that a list of members shows: those of the entries that hold
/// one. It must be a list.
pub open spec fn logins_listed(items: Seq<Tree>, upto: int) -> Seq<Seq<char>>
    decreases upto,
{
    if upto <= 0 {
        Seq::empty()
    } else {
        match text_in(items[upto - 1], "login"@) {
            Some(login) => logins_listed(items, upto - 1).push(login),
            None => logins_listed(items, upto - 1),
        }
    }
}

/// The error for an answer that could not be read.
pub open spec fn unreadable_answer(what: Seq<char>, why: Seq<char>) -> ErrorModel {
    ErrorModel::GitHubApi("Failed to parse "@ + what + ": "@ + why)
}

/// What reading an answer amounts to: what is read out of its document, or
/// an error that says what could not be read and why.
pub open spec fn answer_read<T>(
    what: Seq<char>,
    read: Result<Option<Tree>, Seq<char>>,
    found: spec_fn(Tree) -> Option<T>,
) -> Result<T, ErrorModel> {
    match read {
        Ok(Some(tree)) => match found(tree) {
            Some(v) => Ok(v),
            None => Err(unreadable_answer(what, "unexpected shape"@)),
        },
        Ok(None) => Err(unreadable_answer(what, "unsupported value"@)),
        Err(message) => Err(unreadable_answer(what, message)),
    }
}

/// The error for an answer that could not be read.
fn unreadable(what: &str, why: &str) -> (r: AppError)
    ensures
        r@ == unreadable_answer(what@, why@),
{
    let mut text: String = String::from_str("Failed to parse ");
    text.append(what);
    text.append(": ");
    text.append(why);
    AppError::GitHubApi(text)
}

/// The text under a key of a mapping's entries.
fn entry_text(entries: &Vec<(String, Node)>, key: &str) -> (r: Option<String>)
    ensures
        r.deep_view() == text_at(entries_view(entries@), key@),
{
    match find_entry(entries, key) {
        Some(i) => match &entries[i].1 {
            Node::String(s) => Some(s.clone()),
            _ => None,
        },
        None => None,
    }
}

/// The flag under a key of a mapping's entries.
fn entry_bool(entries: &Vec<(String, Node)>, key: &str) -> (r: Option<bool>)
    ensures
        r == bool_at(entries_view(entries@), key@),
{
    match find_entry(entries, key) {
        Some(i) => match &entries[i].1 {
            Node::Bool(b) => Some(*b),
            _ => None,
        },
        None => None,
    }
}

/// The text that a document holds under a key.
pub fn node_text(node: &Node, key: &str) -> (r: Option<String>)
    ensures
        r.deep_view() == text_in(node@, key@),
{
    match node {
        Node::Mapping(entries) => {
            proof {
                lemma_view_mapping(*entries);
            }
            entry_text(entries, key)
        },
        _ => None,
    }
}

/// The flag that a document holds under a key.
pub fn node_bool(node: &Node, key: &str) -> (r: Option<bool>)
    ensures
        r == bool_in(node@, key@),
{
    match node {
        Node::Mapping(entries) => {
            proof {
                lemma_view_mapping(*entries);
            }
            entry_bool(entries, key)
        },
        _ => None,
    }
}

/// The texts that the items of a list are.
fn item_texts(items: &Vec<Node>) -> (r: Option<Vec<String>>)
    ensures
        match r {
            Some(v) => texts_of(items_view(items@)) == Some(texts(v@)),
            None => texts_of(items_view(items@)) is None,
        },
{
    let ghost all = Seq::new(items_view(items@).len(), |i: int| as_text(items_view(items@)[i]));
    let mut out: Vec<String> = Vec::new();
    let mut i: usize = 0;
    while i < items.len()
        invariant
            i <= items.len(),
            out.len() == i,
            all == Seq::new(items_view(items@).len(), |i: int| as_text(items_view(items@)[i])),
            forall|k: int| 0 <= k < i ==> all[k] == Some(out@[k]@),
        decreases items.len() - i,
    {
        match &items[i] {
            Node::String(s) => {
                out.push(s.clone());
            },
            _ => {
                proof {
                    assert(all[i as int] is None);
                }
                return None;
            },
        }
        i += 1;
    }
    proof {
        assert(all_some(all)->0 =~= texts(out@));
    }
    Some(out)
}

impl WebhookResponse {
    /// Reads a webhook out of an answer.
    pub fn from_node(node: &Node) -> (r: Option<WebhookResponse>)
        ensures
            r.deep_view() == hook_of(node@),
    {
        let entries: &Vec<(String, Node)> = match node {
            Node::Mapping(entries) => entries,
            _ => {
                return None;
            },
        };
        proof {
            lemma_view_mapping(*entries);
        }
        let id: Option<i64> = match find_entry(entries, "id") {
            None => None,
            Some(i) => match &entries[i].1 {
                Node::Null => None,
                other => match other.as_i64() {
                    Some(n) => Some(n),
                    None => {
                        return None;
                    },
                },
            },
        };
        let url: String = match entry_text(entries, "url") {
            Some(s) => s,
            None => {
                return None;
            },
        };
        let config: &Vec<(String, Node)> = match find_entry(entries, "config") {
            Some(i) => match &entries[i].1 {
                Node::Mapping(config) => config,
                _ => {
                    return None;
                },
            },
            None => {
                return None;
            },
        };
        proof {
            lemma_view_mapping(*config);
        }
        let events: &Vec<Node> = match find_entry(entries, "events") {
            Some(i) => match &entries[i].1 {
                Node::Sequence(items) => items,
                _ => {
                    return None;
                },
            },
            None => {
                return None;
            },
        };
        proof {
            lemma_view_sequence(*events);
        }
        match (entry_text(config, "url"), entry_text(config, "content_type"), item_texts(events)) {
            (Some(target), Some(content_type), Some(events)) => Some(
                WebhookResponse {
                    id,
                    url,
                    config: WebhookConfigResponse { url: target, content_type },
                    events,
                },
            ),
            _ => None,
        }
    }

    /// Reads a list of webhooks out of an answer.
    #[verifier::loop_isolation(false)]
    pub fn list_from_node(node: &Node) -> (r: Option<Vec<WebhookResponse>>)
        ensures
            r.deep_view() == hooks_of(node@),
    {
        match node {
            Node::Sequence(items) => {
                proof {
                    lemma_view_sequence(*items);
                }
                let ghost all = Seq::new(
                    items_view(items@).len(),
                    |i: int| hook_of(items_view(items@)[i]),
                );
                let mut out: Vec<WebhookResponse> = Vec::new();
                let mut i: usize = 0;
                while i < items.len()
                    invariant
                        i <= items.len(),
                        out.len() == i,
                        forall|k: int| 0 <= k < i ==> all[k] == Some(out@[k]@),
                    decreases items.len() - i,
                {
                    match WebhookResponse::from_node(&items[i]) {
                        Some(hook) => {
                            out.push(hook);
                        },
                        None => {
                            proof {
                                assert(all[i as int] is None);
                            }
                            return None;
                        },
                    }
                    i += 1;
                }
                proof {
                    assert(all_some(all)->0 =~= out.deep_view());
                }
                Some(out)
            },
            _ => None,
        }
    }
}

impl TeamRepoResponse {
    /// Reads a repository of a team out of an answer.
    pub fn from_node(node: &Node) -> (r: Option<TeamRepoResponse>)
        ensures
            r.deep_view() == team_repo_of(node@),
    {
        let entries: &Vec<(String, Node)> = match node {
            Node::Mapping(entries) => entries,
            _ => {
                return None;
            },
        };
        proof {
            lemma_view_mapping(*entries);
        }
        let name: String = match entry_text(entries, "name") {
            Some(s) => s,
            None => {
                return None;
            },
        };
        let details: &Vec<(String, Node)> = match find_entry(entries, "permissions") {
            Some(i) => match &entries[i].1 {
                Node::Mapping(details) => details,
                _ => {
                    return None;
                },
            },
            None => {
                return None;
            },
        };
        proof {
            lemma_view_mapping(*details);
        }
        match (entry_bool(details, "pull"), entry_bool(details, "push"), entry_bool(
            details,
            "admin",
        )) {
            (Some(pull), Some(push), Some(admin)) => Some(
                TeamRepoResponse { name, permissions: PermissionDetails { pull, push, admin } },
            ),
            _ => None,
        }
    }

    /// Reads a list of a team's repositories out of an answer.
    #[verifier::loop_isolation(false)]
    pub fn list_from_node(node: &Node) -> (r: Option<Vec<TeamRepoResponse>>)
        ensures
            r.deep_view() == team_repos_of(node@),
    {
        match node {
            Node::Sequence(items) => {
                proof {
                    lemma_view_sequence(*items);
                }
                let ghost all = Seq::new(
                    items_view(items@).len(),
                    |i: int| team_repo_of(items_view(items@)[i]),
                );
                let mut out: Vec<TeamRepoResponse> = Vec::new();
                let mut i: usize = 0;
                while i < items.len()
                    invariant
                        i <= items.len(),
                        out.len() == i,
                        forall|k: int| 0 <= k < i ==> all[k] == Some(out@[k]@),
                    decreases items.len() - i,
                {
                    match TeamRepoResponse::from_node(&items[i]) {
                        Some(repo) => {
                            out.push(repo);
                        },
                        None => {
                            proof {
                                assert(all[i as int] is None);
                            }
                            return None;
                        },
                    }
                    i += 1;
                }
                proof {
                    assert(all_some(all)->0 =~= out.deep_view());
                }
                Some(out)
            },
            _ => None,
        }
    }
}

/// Reads what the organization's list of repositories shows.
pub fn list_repos(node: &Node) -> (r: Option<Vec<RepoObservation>>)
    ensures
        r.deep_view() == repos_listed(node@),
{
    match node {
        Node::Sequence(items) => {
            proof {
                lemma_view_sequence(*items);
            }
            let mut out: Vec<RepoObservation> = Vec::new();
            let mut i: usize = 0;
            while i < items.len()
                invariant
                    i <= items.len(),
                    out.len() == i,
                    forall|k: int| 0 <= k < i ==> out@[k]@ == repo_listed(items@[k]@),
                decreases items.len() - i,
            {
                out.push(
                    RepoObservation {
                        name: node_text(&items[i], "name"),
                        private: node_bool(&items[i], "private"),
                        settings: None,
                        hooks: None,
                    },
                );
                i += 1;
            }
            proof {
                assert(out.deep_view() =~= repos_listed(node@)->0);
            }
            Some(out)
        },
        _ => None,
    }
}

/// Reads what the organization's list of teams shows.
pub fn list_teams(node: &Node) -> (r: Option<Vec<TeamObservation>>)
    ensures
        r.deep_view() == teams_listed(node@),
{
    match node {
        Node::Sequence(items) => {
            proof {
                lemma_view_sequence(*items);
            }
            let mut out: Vec<TeamObservation> = Vec::new();
            let mut i: usize = 0;
            while i < items.len()
                invariant
                    i <= items.len(),
                    out.len() == i,
                    forall|k: int|
                        0 <= k < i ==> out@[k]@ == (TeamSeen {
                            slug: text_in(items@[k]@, "slug"@),
                            members: None,
                            repos: None,
                        }),
                decreases items.len() - i,
            {
                out.push(
                    TeamObservation { slug: node_text(&items[i], "slug"), members: None, repos: None },
                );
                i += 1;
            }
            proof {
                assert(out.deep_view() =~= teams_listed(node@)->0);
            }
            Some(out)
        },
        _ => None,
    }
}

/// Reads what a list of members shows.
pub fn list_members(node: &Node) -> (r: Option<Vec<MemberObservation>>)
    ensures
        r.deep_view() == members_listed(node@),
{
    match node {
        Node::Sequence(items) => {
            proof {
                lemma_view_sequence(*items);
            }
            let mut out: Vec<MemberObservation> = Vec::new();
            let mut i: usize = 0;
            while i < items.len()
                invariant
                    i <= items.len(),
                    out.len() == i,
                    forall|k: int|
                        0 <= k < i ==> out@[k]@ == (MemberSeen {
                            login: text_in(items@[k]@, "login"@),
                            role: None,
                        }),
                decreases items.len() - i,
            {
                out.push(MemberObservation { login: node_text(&items[i], "login"), role: None });
                i += 1;
            }
            proof {
                assert(out.deep_view() =~= members_listed(node@)->0);
            }
            Some(out)
        },
        _ => None,
    }
}

/// Reads the logins that a list of a team's members shows: those of the
/// entries that hold one.
pub fn list_logins(node: &Node) -> (r: Option<Vec<String>>)
    ensures
        match node@ {
            Tree::List(items) => r is Some && texts(r->0@) == logins_listed(
                items,
                items.len() as int,
            ),
            _ => r is None,
        },
{
    match node {
        Node::Sequence(items) => {
            proof {
                lemma_view_sequence(*items);
            }
            let ghost all = items_view(items@);
            let mut out: Vec<String> = Vec::new();
            let mut i: usize = 0;
            proof {
                assert(texts(out@) =~= logins_listed(all, 0));
            }
            while i < items.len()
                invariant
                    i <= items.len(),
                    all == items_view(items@),
                    texts(out@) == logins_listed(all, i as int),
                decreases items.len() - i,
            {
                match node_text(&items[i], "login") {
                    Some(login) => {
                        let ghost before = texts(out@);
                        out.push(login);
                        proof {
                            assert(texts(out@) =~= before.push(login@));
                        }
                    },
                    None => {},
                }
                i += 1;
            }
            Some(out)
        },
        _ => None,
    }
}

/// Makes of a reader's outcome what is read out of the document, or the
/// error that says what could not be read.
fn settle_answer_read(what: &str, read: Result<Option<Node>, String>) -> (r: Result<Node, AppError>)
    ensures
        match read_outcome(read) {
            Ok(Some(tree)) => r is Ok && r->Ok_0@ == tree,
            Ok(None) => r is Err && r->Err_0@ == unreadable_answer(what@, "unsupported value"@),
            Err(message) => r is Err && r->Err_0@ == unreadable_answer(what@, message),
        },
{
    match read {
        Ok(Some(node)) => Ok(node),
        Ok(None) => Err(unreadable(what, "unsupported value")),
        Err(message) => Err(unreadable(what, message.as_str())),
    }
}

impl GitHubClient {
    /// The webhooks of a repository, read out of the body of the answer to
    /// a read of the repository's webhooks.
    pub fn get_webhooks(&self, body: &str) -> (r: Result<Vec<WebhookResponse>, AppError>)
        ensures
            outcome(r) == answer_read("webhooks"@, json_document(body@), |t: Tree| hooks_of(t)),
    {
        match settle_answer_read("webhooks", read_json(body)) {
            Ok(node) => match WebhookResponse::list_from_node(&node) {
                Some(hooks) => Ok(hooks),
                None => Err(unreadable("webhooks", "unexpected shape")),
            },
            Err(e) => Err(e),
        }
    }

    /// Reads the repositories of a team out of the body of an answer.
    pub fn read_team_repos(body: &str) -> (r: Result<Vec<TeamRepoResponse>, AppError>)
        ensures
            outcome(r) == answer_read(
                "team repos"@,
                json_document(body@),
                |t: Tree| team_repos_of(t),
            ),
    {
        match settle_answer_read("team repos", read_json(body)) {
            Ok(node) => match TeamRepoResponse::list_from_node(&node) {
                Some(repos) => Ok(repos),
                None => Err(unreadable("team repos", "unexpected shape")),
            },
            Err(e) => Err(e),
        }
    }

    /// Reads a team out of the body of an answer.
    pub fn read_team(body: &str) -> (r: Result<TeamResponse, AppError>)
        ensures
            match answer_read("team"@, json_document(body@), |t: Tree| text_in(t, "name"@)) {
                Ok(name) => r is Ok && r->Ok_0.name@ == name,
                Err(e) => r is Err && r->Err_0@ == e,
            },
    {
        match settle_answer_read("team", read_json(body)) {
            Ok(node) => match node_text(&node, "name") {
                Some(name) => Ok(TeamResponse { name }),
                None => Err(unreadable("team", "unexpected shape")),
            },
            Err(e) => Err(e),
        }
    }

    /// Reads the role of a member out of the body of an answer.
    pub fn read_membership(body: &str) -> (r: Result<String, AppError>)
        ensures
            outcome(r) == answer_read(
                "membership"@,
                json_document(body@),
                |t: Tree| text_in(t, "role"@),
            ),
    {
        match settle_answer_read("membership", read_json(body)) {
            Ok(node) => match node_text(&node, "role") {
                Some(role) => Ok(role),
                None => Err(unreadable("membership", "unexpected shape")),
            },
            Err(e) => Err(e),
        }
    }

    /// Reads what a team may do on a repository out of the body of an
    /// answer; an answer without a body tells nothing.
    pub fn read_team_repo_permission(body: &str) -> (r: Result<Option<PermissionDetails>, AppError>)
        ensures
            if body@.len() == 0 {
                r == Ok::<Option<PermissionDetails>, AppError>(None)
            } else {
                match answer_read(
                    "team repo"@,
                    json_document(body@),
                    |t: Tree| team_repo_of(t),
                ) {
                    Ok(repo) => r == Ok::<Option<PermissionDetails>, AppError>(
                        Some(repo.permissions),
                    ),
                    Err(e) => r is Err && r->Err_0@ == e,
                }
            },
    {
        if body.unicode_len() == 0 {
            return Ok(None);
        }
        match settle_answer_read("team repo", read_json(body)) {
            Ok(node) => match TeamRepoResponse::from_node(&node) {
                Some(repo) => Ok(Some(repo.permissions)),
                None => Err(unreadable("team repo", "unexpected shape")),
            },
            Err(e) => Err(e),
        }
    }

    /// Reads what the organization's list of repositories shows out of the
    /// body of an answer.
    pub fn read_repo_list(body: &str) -> (r: Result<Vec<RepoObservation>, AppError>)
        ensures
            outcome(r) == answer_read(
                "repositories"@,
                json_document(body@),
                |t: Tree| repos_listed(t),
            ),
    {
        match settle_answer_read("repositories", read_json(body)) {
            Ok(node) => match list_repos(&node) {
                Some(repos) => Ok(repos),
                None => Err(unreadable("repositories", "unexpected shape")),
            },
            Err(e) => Err(e),
        }
    }

    /// Reads what the organization's list of teams shows out of the body
    /// of an answer.
    pub fn read_team_list(body: &str) -> (r: Result<Vec<TeamObservation>, AppError>)
        ensures
            outcome(r) == answer_read("teams"@, json_document(body@), |t: Tree| teams_listed(t)),
    {
        match settle_answer_read("teams", read_json(body)) {
            Ok(node) => match list_teams(&node) {
                Some(teams) => Ok(teams),
                None => Err(unreadable("teams", "unexpected shape")),
            },
            Err(e) => Err(e),
        }
    }

    /// Reads what the organization's list of members shows out of the body
    /// of an answer.
    pub fn read_member_list(body: &str) -> (r: Result<Vec<MemberObservation>, AppError>)
        ensures
            outcome(r) == answer_read(
                "members"@,
                json_document(body@),
                |t: Tree| members_listed(t),
            ),
    {
        match settle_answer_read("members", read_json(body)) {
            Ok(node) => match list_members(&node) {
                Some(members) => Ok(members),
                None => Err(unreadable("members", "unexpected shape")),
            },
            Err(e) => Err(e),
        }
    }

    /// Reads the logins of a team's members out of the body of an answer.
    pub fn read_login_list(body: &str) -> (r: Result<Vec<String>, AppError>)
        ensures
            match json_document(body@) {
                Ok(Some(Tree::List(items))) => r is Ok && texts(r->Ok_0@) == logins_listed(
                    items,
                    items.len() as int,
                ),
                Ok(Some(_)) => r is Err && r->Err_0@ == unreadable_answer(
                    "team members"@,
                    "unexpected shape"@,
                ),
                Ok(None) => r is Err && r->Err_0@ == unreadable_answer(
                    "team members"@,
                    "unsupported value"@,
                ),
                Err(message) => r is Err && r->Err_0@ == unreadable_answer(
                    "team members"@,
                    message,
                ),
            },
    {
        match settle_answer_read("team members", read_json(body)) {
            Ok(node) => match list_logins(&node) {
                Some(logins) => Ok(logins),
                None => Err(unreadable("team members", "unexpected shape")),
            },
            Err(e) => Err(e),
        }
    }
}

} // verus!
