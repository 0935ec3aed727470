//! The calls as they go over the wire: what is checked before a call is
//! sent, which headers it carries, and what its answer amounts to.

use crate::api_mapping::HttpMethod;
use crate::config::RepoSettings;
use crate::documents::{
    document, json_document, json_rendering, read_json, read_outcome, settle_write, write_json,
    written,
};
use crate::error::{AppError, ErrorModel, outcome};
use crate::github::{ApiCall, CallModel, GitHubClient};
use crate::node::{lemma_view_mapping, Node, Tree};
use crate::snapshot::visibility_of;
use crate::text::{blank, contains, is_blank, joined, occurs_in};
use crate::urls::repo_url;
use vstd::prelude::*;

verus! {

broadcast use vstd::std_specs::vec::group_vec_axioms;

/// The method of a call.
#[derive(Clone, Copy, Debug, PartialEq, Eq, Structural)]
pub enum Verb {
    Get,
    Patch,
    Put,
    Post,
}

impl Verb {
    /// The name of the method, in capitals.
    pub open spec fn name(self) -> Seq<char> {
        match self {
            Verb::Get => "GET"@,
            Verb::Patch => "PATCH"@,
            Verb::Put => "PUT"@,
            Verb::Post => "POST"@,
        }
    }

    /// The name of the method, in capitals.
    pub fn as_str(&self) -> (r: &'static str)
        ensures
            r@ == self.name(),
    {
        match self {
            Verb::Get => "GET",
            Verb::Patch => "PATCH",
            Verb::Put => "PUT",
            Verb::Post => "POST",
        }
    }
}

/// The verb of a method that writes.
pub open spec fn verb_of(method: HttpMethod) -> Verb {
    match method {
        HttpMethod::Patch => Verb::Patch,
        HttpMethod::Put => Verb::Put,
        HttpMethod::Post => Verb::Post,
    }
}

/// A call that is ready to be sent.
#[derive(Debug)]
pub struct Request {
    pub method: Verb,
    pub url: String,
    pub authorization: String,
    pub accept: String,
    pub user_agent: String,
    pub body: Option<String>,
}

/// The model of a [`Request`].
pub struct RequestModel {
    pub method: Verb,
    pub url: Seq<char>,
    pub authorization: Seq<char>,
    pub accept: Seq<char>,
    pub user_agent: Seq<char>,
    pub body: Option<Seq<char>>,
}

impl View for Request {
    type V = RequestModel;

    open spec fn view(&self) -> RequestModel {
        RequestModel {
            method: self.method,
            url: self.url@,
            authorization: self.authorization@,
            accept: self.accept@,
            user_agent: self.user_agent@,
            body: self.body.deep_view(),
        }
    }
}

impl DeepView for Request {
    type V = RequestModel;

    open spec fn deep_view(&self) -> RequestModel {
        self@
    }
}

/// The value of the header that authorizes a call.
pub open spec fn bearer(token: Seq<char>) -> Seq<char> {
    "Bearer "@ + token
}

/// What becomes of a call before it is sent: an error where its address is
/// blank, where the token is blank, or where the token would break the
/// header that carries it; else the request with its headers.
pub open spec fn prepared(method: Verb, url: Seq<char>, token: Seq<char>, body: Option<Seq<char>>) -> Result<
    RequestModel,
    ErrorModel,
> {
    if is_blank(url) {
        Err(
            ErrorModel::GitHubApi(
                "Internal error: Attempted "@ + method.name() + " with empty URL"@,
            ),
        )
    } else if is_blank(token) {
        Err(ErrorModel::GitHubApi("GitHub token is empty"@))
    } else if occurs_in("\n"@, bearer(token)) || occurs_in("\r"@, bearer(token)) {
        Err(ErrorModel::GitHubApi("Invalid characters in token for Authorization header"@))
    } else {
        Ok(
            RequestModel {
                method,
                url,
                authorization: bearer(token),
                accept: "application/vnd.github+json"@,
                user_agent: "gh-config"@,
                body,
            },
        )
    }
}

/// What becomes of a call with a body: the error of writing the body out,
/// or what becomes of the call with the body as JSON text.
pub open spec fn prepared_with_body(method: Verb, url: Seq<char>, token: Seq<char>, body: Tree) -> Result<
    RequestModel,
    ErrorModel,
> {
    match written(json_rendering(body)) {
        Ok(text) => prepared(method, url, token, Some(text)),
        Err(e) => Err(e),
    }
}

/// What becomes of a planned call before it is sent.
pub open spec fn prepared_call(call: CallModel, token: Seq<char>) -> Result<RequestModel, ErrorModel> {
    match call.body {
        Some(body) => prepared_with_body(verb_of(call.method), call.url, token, body),
        None => prepared(verb_of(call.method), call.url, token, None),
    }
}

/// A status that says that the call succeeded.
pub open spec fn is_success(status: u16) -> bool {
    200 <= status < 300
}

/// What the answer to a call amounts to: its body where the status says
/// that the call succeeded, and else an error that holds the body.
pub open spec fn answered(status: u16, body: Seq<char>) -> Result<Seq<char>, ErrorModel> {
    if is_success(status) {
        Ok(body)
    } else {
        Err(ErrorModel::GitHubApi(body))
    }
}

/// The settings that a repository's document holds: its entries where it
/// is a mapping, none where it is anything else.
pub open spec fn settings_of(tree: Tree) -> Seq<(Seq<char>, Tree)> {
    match tree {
        Tree::Dict(entries) => entries,
        _ => Seq::empty(),
    }
}

/// What the body of the answer to a read of a repository amounts to, given
/// what the reader made of it.
pub open spec fn repo_settings_read(
    url: Seq<char>,
    body: Seq<char>,
    read: Result<Option<Tree>, Seq<char>>,
) -> Result<Seq<(Seq<char>, Tree)>, ErrorModel> {
    if body.len() == 0 {
        Err(ErrorModel::GitHubApi("Empty response body"@))
    } else {
        match read {
            Ok(Some(tree)) => Ok(settings_of(tree)),
            Ok(None) => Err(
                ErrorModel::GitHubApi("Failed to convert repo JSON to YAML: unsupported value"@),
            ),
            Err(message) => Err(
                ErrorModel::GitHubApi(
                    "Failed to parse response from "@ + url + ": "@ + message,
                ),
            ),
        }
    }
}

/// Makes of the answer to a call its body or the error.
pub fn settle_answer(status: u16, body: String) -> (r: Result<String, AppError>)
    ensures
        outcome(r) == answered(status, body@),
{
    if 200 <= status && status < 300 {
        Ok(body)
    } else {
        Err(AppError::GitHubApi(body))
    }
}

/// Insists on a body: an empty one is an error.
pub fn require_body(body: String) -> (r: Result<String, AppError>)
    ensures
        outcome(r) == if body@.len() == 0 {
            Err::<Seq<char>, ErrorModel>(ErrorModel::GitHubApi("Empty response body"@))
        } else {
            Ok::<Seq<char>, ErrorModel>(body@)
        },
{
    if body.as_str().unicode_len() == 0 {
        Err(AppError::GitHubApi("Empty response body".to_string()))
    } else {
        Ok(body)
    }
}

/// Makes the settings of a repository of what the reader made of the body
/// of an answer.
pub fn settings_from_document(url: &str, body: &str, read: Result<Option<Node>, String>) -> (r:
    Result<RepoSettings, AppError>)
    ensures
        outcome(r) == repo_settings_read(url@, body@, read_outcome(read)),
{
    if body.unicode_len() == 0 {
        return Err(AppError::GitHubApi("Empty response body".to_string()));
    }
    match read {
        Ok(Some(Node::Mapping(entries))) => {
            proof {
                lemma_view_mapping(entries);
            }
            Ok(RepoSettings { entries })
        },
        Ok(Some(_)) => Ok(RepoSettings::new()),
        Ok(None) => Err(
            AppError::GitHubApi("Failed to convert repo JSON to YAML: unsupported value".to_string()),
        ),
        Err(message) => {
            let mut text: String = String::from_str("Failed to parse response from ");
            text.append(url);
            text.append(": ");
            text.append(message.as_str());
            Err(AppError::GitHubApi(text))
        },
    }
}

impl GitHubClient {
    /// Prepares a call: checks its address and the token, and gives it the
    /// headers that every call carries.
    pub fn prepare(&self, method: Verb, url: &str, body: Option<String>) -> (r: Result<
        Request,
        AppError,
    >)
        ensures
            outcome(r) == prepared(method, url@, self.token@, body.deep_view()),
    {
        if blank(url) {
            let mut text: String = String::from_str("Internal error: Attempted ");
            text.append(method.as_str());
            text.append(" with empty URL");
            return Err(AppError::GitHubApi(text));
        }
        if blank(self.token.as_str()) {
            return Err(AppError::GitHubApi("GitHub token is empty".to_string()));
        }
        let authorization: String = joined("Bearer ", self.token.as_str());
        if contains(authorization.as_str(), "\n") || contains(authorization.as_str(), "\r") {
            return Err(
                AppError::GitHubApi(
                    "Invalid characters in token for Authorization header".to_string(),
                ),
            );
        }
        Ok(
            Request {
                method,
                url: url.to_string(),
                authorization,
                accept: "application/vnd.github+json".to_string(),
                user_agent: "gh-config".to_string(),
                body,
            },
        )
    }

    /// Prepares a call with a JSON body.
    fn prepare_with_body(&self, method: Verb, url: &str, body: &Node) -> (r: Result<
        Request,
        AppError,
    >)
        ensures
            outcome(r) == prepared_with_body(method, url@, self.token@, body@),
    {
        match settle_write(write_json(body)) {
            Ok(text) => self.prepare(method, url, Some(text)),
            Err(e) => Err(e),
        }
    }

    /// Prepares a read.
    pub fn get(&self, url: &str) -> (r: Result<Request, AppError>)
        ensures
            outcome(r) == prepared(Verb::Get, url@, self.token@, None),
    {
        self.prepare(Verb::Get, url, None)
    }

    /// Prepares a `PATCH` with a JSON body.
    pub fn send_patch(&self, url: &str, body: &Node) -> (r: Result<Request, AppError>)
        ensures
            outcome(r) == prepared_with_body(Verb::Patch, url@, self.token@, body@),
    {
        self.prepare_with_body(Verb::Patch, url, body)
    }

    /// Prepares a `POST` with a JSON body.
    pub fn send_post(&self, url: &str, body: &Node) -> (r: Result<Request, AppError>)
        ensures
            outcome(r) == prepared_with_body(Verb::Post, url@, self.token@, body@),
    {
        self.prepare_with_body(Verb::Post, url, body)
    }

    /// Prepares a `PUT`, with a JSON body or without one.
    pub fn send_put(&self, url: &str, body: &Option<Node>) -> (r: Result<Request, AppError>)
        ensures
            outcome(r) == match body.deep_view() {
                Some(tree) => prepared_with_body(Verb::Put, url@, self.token@, tree),
                None => prepared(Verb::Put, url@, self.token@, None),
            },
    {
        match body {
            Some(node) => self.prepare_with_body(Verb::Put, url, node),
            None => self.prepare(Verb::Put, url, None),
        }
    }

    /// Prepares a planned call, by its method.
    pub fn request_for(&self, call: &ApiCall) -> (r: Result<Request, AppError>)
        ensures
            outcome(r) == prepared_call(call@, self.token@),
    {
        match call.method {
            HttpMethod::Patch => match &call.body {
                Some(body) => self.send_patch(call.url.as_str(), body),
                None => self.prepare(Verb::Patch, call.url.as_str(), None),
            },
            HttpMethod::Post => match &call.body {
                Some(body) => self.send_post(call.url.as_str(), body),
                None => self.prepare(Verb::Post, call.url.as_str(), None),
            },
            HttpMethod::Put => self.send_put(call.url.as_str(), &call.body),
        }
    }

    /// Reads the settings of a repository out of the body of the answer to
    /// a read of the repository: every field of the answer is a setting.
    pub fn get_repo_settings(&self, repo_name: &str, body: &str) -> (r: Result<
        RepoSettings,
        AppError,
    >)
        ensures
            outcome(r) == repo_settings_read(
                repo_url(self.org@, repo_name@),
                body@,
                json_document(body@),
            ),
    {
        let url: String = self.repo_address(repo_name);
        settings_from_document(url.as_str(), body, read_json(body))
    }

    /// The visibility of a repository that is private or not.
    pub fn get_repo_visibility(private: bool) -> (r: String)
        ensures
            r@ == visibility_of(Some(private)),
    {
        if private {
            "private".to_string()
        } else {
            "public".to_string()
        }
    }
}

} // verus!
