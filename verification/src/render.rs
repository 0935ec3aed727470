//! The text of a generated configuration: what is written to the
//! configuration file when the state of an organization is taken over.

use crate::census::managed_keys;
use crate::config::{
    Assignment, AssignmentModel, Config, ConfigModel, copy_texts, Repo, RepoModel, Team, TeamModel,
    texts, User, UserModel, WebhookConfig, WebhookModel,
};
use crate::documents::{write_yaml, yaml_rendering};
use crate::encode::sorted_bag;
use crate::github::GitHubClient;
use crate::node::{dict_get, entries_view, Node, Tree};
use crate::normalize::{
    normalize_assignments, normalize_teams, normalize_users, same_webhook, sorted_team,
};
use crate::order::{sort_keyed, stable_sort};
use crate::text::{same_text, trim, trimmed};
use vstd::prelude::*;

verus! {

broadcast use vstd::std_specs::vec::group_vec_axioms;

/// The lines of the first `upto` events of a list, each behind a dash at
/// the given indentation.
pub open spec fn event_lines(events: Seq<Seq<char>>, indent: Seq<char>, upto: int) -> Seq<char>
    decreases upto,
{
    if upto <= 0 {
        Seq::empty()
    } else {
        event_lines(events, indent, upto - 1) + indent + "- "@ + events[upto - 1] + "\n"@
    }
}

/// The lines of a webhook at the given indentation: its address, its
/// content type, and its events, sorted.
pub open spec fn webhook_lines(w: WebhookModel, indent: Seq<char>) -> Seq<char> {
    indent + "url: "@ + w.url + "\n"@ + indent + "content_type: "@ + w.content_type + "\n"@
        + indent + "events:\n"@ + event_lines(
        stable_sort(w.events),
        indent,
        w.events.len() as int,
    )
}

/// The text of a setting's value: what `serde_yaml` writes for it, without
/// the white space around it; nothing where it cannot be written.
pub open spec fn setting_text(value: Tree) -> Seq<char> {
    match yaml_rendering(value) {
        Ok(text) => trimmed(text),
        Err(_) => Seq::empty(),
    }
}

/// A key is one of the managed settings.
pub open spec fn is_managed(key: Seq<char>) -> bool {
    key == managed_keys()[0] || key == managed_keys()[1] || key == managed_keys()[2]
}

/// The lines of the managed settings among the first `upto` of the sorted
/// entries, each with the value that the settings hold under its key.
pub open spec fn setting_lines(
    sorted: Seq<(Seq<char>, Tree)>,
    settings: Seq<(Seq<char>, Tree)>,
    upto: int,
) -> Seq<char>
    decreases upto,
{
    if upto <= 0 {
        Seq::empty()
    } else {
        let rest = setting_lines(sorted, settings, upto - 1);
        let key = sorted[upto - 1].0;
        match dict_get(settings, key) {
            Some(value) => if is_managed(key) {
                rest + "    "@ + key + ": "@ + setting_text(value) + "\n"@
            } else {
                rest
            },
            None => rest,
        }
    }
}

/// The lines of a repository: its name, its managed settings, its
/// visibility if it has one, and its webhook if it has one that is not the
/// default one.
pub open spec fn repo_lines(repo: RepoModel, default_webhook: Option<WebhookModel>) -> Seq<char> {
    "- name: "@ + repo.name + "\n"@ + (if repo.settings.len() > 0 {
        "  settings:\n"@ + setting_lines(
            stable_sort(repo.settings),
            repo.settings,
            repo.settings.len() as int,
        )
    } else {
        "  settings: {}\n"@
    }) + (match repo.visibility {
        Some(v) => "  visibility: "@ + v + "\n"@,
        None => Seq::empty(),
    }) + (match repo.webhook {
        Some(w) => if default_webhook != Some(w) {
            "  webhook:\n"@ + webhook_lines(w, "    "@)
        } else {
            Seq::empty()
        },
        None => Seq::empty(),
    })
}

/// The lines of the first `upto` repositories.
pub open spec fn repos_lines(
    repos: Seq<RepoModel>,
    default_webhook: Option<WebhookModel>,
    upto: int,
) -> Seq<char>
    decreases upto,
{
    if upto <= 0 {
        Seq::empty()
    } else {
        repos_lines(repos, default_webhook, upto - 1) + repo_lines(repos[upto - 1], default_webhook)
    }
}

/// The lines of a team: its name and its members.
pub open spec fn team_lines(team: TeamModel) -> Seq<char> {
    "- name: "@ + team.name + "\n"@ + "  members:\n"@ + event_lines(
        team.members,
        "  "@,
        team.members.len() as int,
    )
}

/// The lines of the first `upto` teams.
pub open spec fn teams_lines(teams: Seq<TeamModel>, upto: int) -> Seq<char>
    decreases upto,
{
    if upto <= 0 {
        Seq::empty()
    } else {
        teams_lines(teams, upto - 1) + team_lines(teams[upto - 1])
    }
}

/// The lines of the first `upto` users.
pub open spec fn users_lines(users: Seq<UserModel>, upto: int) -> Seq<char>
    decreases upto,
{
    if upto <= 0 {
        Seq::empty()
    } else {
        users_lines(users, upto - 1) + "- login: "@ + users[upto - 1].login + "\n"@ + "  role: "@
            + users[upto - 1].role + "\n"@
    }
}

/// The lines of the first `upto` assignments.
pub open spec fn assignments_lines(assignments: Seq<AssignmentModel>, upto: int) -> Seq<char>
    decreases upto,
{
    if upto <= 0 {
        Seq::empty()
    } else {
        assignments_lines(assignments, upto - 1) + "- repo: "@ + assignments[upto - 1].repo
            + "\n"@ + "  team: "@ + assignments[upto - 1].team + "\n"@ + "  permission: "@
            + assignments[upto - 1].permission + "\n"@
    }
}

/// The section of the assignments, sorted by team and repository.
pub open spec fn assignments_section(assignments: Seq<AssignmentModel>) -> Seq<char> {
    if assignments.len() > 0 {
        "assignments:\n"@ + assignments_lines(
            stable_sort(assignments),
            assignments.len() as int,
        ) + "\n"@
    } else {
        "assignments: []\n\n"@
    }
}

/// The section of the default webhook, if there is one.
pub open spec fn default_webhook_section(default_webhook: Option<WebhookModel>) -> Seq<char> {
    match default_webhook {
        Some(w) => "default_webhook:\n"@ + webhook_lines(w, "  "@) + "\n"@,
        None => Seq::empty(),
    }
}

/// The section of the repositories, sorted by name, if there are any.
pub open spec fn repos_section(repos: Seq<RepoModel>, default_webhook: Option<WebhookModel>) -> Seq<
    char,
> {
    if repos.len() > 0 {
        "repos:\n"@ + repos_lines(stable_sort(repos), default_webhook, repos.len() as int)
            + "\n"@
    } else {
        Seq::empty()
    }
}

/// The section of the teams, sorted by name, the members of each sorted, if
/// there are any teams.
pub open spec fn teams_section(teams: Seq<TeamModel>) -> Seq<char> {
    if teams.len() > 0 {
        "teams:\n"@ + teams_lines(crate::normalize::normal_teams(teams), teams.len() as int)
            + "\n"@
    } else {
        Seq::empty()
    }
}

/// The section of the users, sorted by login, if there are any.
pub open spec fn users_section(users: Seq<UserModel>) -> Seq<char> {
    if users.len() > 0 {
        "users:\n"@ + users_lines(stable_sort(users), users.len() as int) + "\n"@
    } else {
        Seq::empty()
    }
}

/// The text of a generated configuration.
pub open spec fn config_text(c: ConfigModel) -> Seq<char> {
    "org: "@ + c.org + "\n\n"@ + assignments_section(c.assignments) + default_webhook_section(
        c.default_webhook,
    ) + repos_section(c.repos, c.default_webhook) + teams_section(c.teams) + users_section(
        c.users,
    )
}

/// What is to be done with a generated configuration.
#[derive(Debug)]
pub enum FileAction {
    /// Write nothing: report this text.
    Report(String),
    /// Write the content to the file at the path.
    Write { path: String, content: String },
}

/// The model of a [`FileAction`].
pub enum FileActionModel {
    Report(Seq<char>),
    Write { path: Seq<char>, content: Seq<char> },
}

impl View for FileAction {
    type V = FileActionModel;

    open spec fn view(&self) -> FileActionModel {
        match self {
            FileAction::Report(text) => FileActionModel::Report(text@),
            FileAction::Write { path, content } => FileActionModel::Write {
                path: path@,
                content: content@,
            },
        }
    }
}

/// Writes the lines of a list of texts, each behind a dash.
pub fn write_event_lines(out: &mut String, events: &Vec<String>, indent: &str)
    ensures
        final(out)@ == old(out)@ + event_lines(texts(events@), indent@, events.len() as int),
{
    let ghost start = out@;
    let ghost all = texts(events@);
    let mut i: usize = 0;
    proof {
        assert(start + event_lines(all, indent@, 0) =~= start);
    }
    while i < events.len()
        invariant
            i <= events.len(),
            all == texts(events@),
            out@ == start + event_lines(all, indent@, i as int),
        decreases events.len() - i,
    {
        out.append(indent);
        out.append("- ");
        out.append(events[i].as_str());
        out.append("\n");
        proof {
            assert(out@ =~= start + event_lines(all, indent@, i + 1));
        }
        i += 1;
    }
}

/// Writes the lines of a webhook.
pub fn write_webhook_lines(out: &mut String, w: &WebhookConfig, indent: &str)
    ensures
        final(out)@ == old(out)@ + webhook_lines(w@, indent@),
{
    let ghost start = out@;
    out.append(indent);
    out.append("url: ");
    out.append(w.url.as_str());
    out.append("\n");
    out.append(indent);
    out.append("content_type: ");
    out.append(w.content_type.as_str());
    out.append("\n");
    out.append(indent);
    out.append("events:\n");
    let mut events: Vec<String> = copy_texts(&w.events);
    proof {
        assert(events.deep_view() =~= texts(w.events@));
    }
    sort_keyed(&mut events);
    proof {
        assert(texts(events@) =~= events.deep_view());
        crate::order::lemma_stable_sort_len(texts(w.events@));
    }
    write_event_lines(out, &events, indent);
    proof {
        assert(out@ =~= start + webhook_lines(w@, indent@));
    }
}

/// The text of a setting's value.
pub fn write_setting(value: &Node) -> (r: String)
    ensures
        r@ == setting_text(value@),
{
    match write_yaml(value) {
        Ok(text) => trim(text.as_str()),
        Err(_) => String::new(),
    }
}

/// Tests whether a key is one of the managed settings.
pub fn managed(key: &str) -> (r: bool)
    ensures
        r == is_managed(key@),
{
    same_text(key, "allow_merge_commit") || same_text(key, "allow_squash_merge") || same_text(
        key,
        "allow_rebase_merge",
    )
}

/// Writes the lines of a repository.
pub fn write_repo_lines(out: &mut String, repo: &Repo, default_webhook: &Option<WebhookConfig>)
    ensures
        final(out)@ == old(out)@ + repo_lines(repo@, default_webhook.deep_view()),
{
    let ghost start = out@;
    out.append("- name: ");
    out.append(repo.name.as_str());
    out.append("\n");
    if !repo.settings.is_empty() {
        out.append("  settings:\n");
        let sorted: Vec<(String, Node)> = sorted_bag(&repo.settings);
        let ghost keys = entries_view(sorted@);
        let ghost head = out@;
        proof {
            crate::order::lemma_stable_sort_len(repo.settings@);
            assert(head + setting_lines(keys, repo.settings@, 0) =~= head);
        }
        let mut i: usize = 0;
        while i < sorted.len()
            invariant
                i <= sorted.len(),
                keys == entries_view(sorted@),
                out@ == head + setting_lines(keys, repo.settings@, i as int),
            decreases sorted.len() - i,
        {
            let key: &str = sorted[i].0.as_str();
            match repo.settings.get(key) {
                Some(value) => {
                    if managed(key) {
                        let text: String = write_setting(value);
                        out.append("    ");
                        out.append(key);
                        out.append(": ");
                        out.append(text.as_str());
                        out.append("\n");
                        proof {
                            assert(out@ =~= head + setting_lines(keys, repo.settings@, i + 1));
                        }
                    }
                },
                None => {},
            }
            i += 1;
        }
    } else {
        out.append("  settings: {}\n");
    }
    match &repo.visibility {
        Some(v) => {
            out.append("  visibility: ");
            out.append(v.as_str());
            out.append("\n");
        },
        None => {},
    }
    match &repo.webhook {
        Some(w) => {
            if !same_webhook(default_webhook, &repo.webhook) {
                out.append("  webhook:\n");
                write_webhook_lines(out, w, "    ");
            }
        },
        None => {},
    }
    proof {
        assert(out@ =~= start + repo_lines(repo@, default_webhook.deep_view()));
    }
}

/// Writes the section of the assignments.
pub fn write_assignments_section(out: &mut String, assignments: &Vec<Assignment>)
    ensures
        final(out)@ == old(out)@ + assignments_section(assignments.deep_view()),
{
    let ghost start = out@;
    if assignments.len() > 0 {
        out.append("assignments:\n");
        let sorted: Vec<Assignment> = normalize_assignments(assignments);
        let ghost all = sorted.deep_view();
        let ghost head = out@;
        proof {
            crate::order::lemma_stable_sort_len(assignments.deep_view());
            assert(head + assignments_lines(all, 0) =~= head);
        }
        let mut i: usize = 0;
        while i < sorted.len()
            invariant
                i <= sorted.len(),
                all == sorted.deep_view(),
                out@ == head + assignments_lines(all, i as int),
            decreases sorted.len() - i,
        {
            out.append("- repo: ");
            out.append(sorted[i].repo.as_str());
            out.append("\n");
            out.append("  team: ");
            out.append(sorted[i].team.as_str());
            out.append("\n");
            out.append("  permission: ");
            out.append(sorted[i].permission.as_str());
            out.append("\n");
            proof {
                assert(out@ =~= head + assignments_lines(all, i + 1));
            }
            i += 1;
        }
        out.append("\n");
    } else {
        out.append("assignments: []\n\n");
    }
    proof {
        assert(out@ =~= start + assignments_section(assignments.deep_view()));
    }
}

/// Writes the section of the default webhook.
pub fn write_default_webhook_section(out: &mut String, default_webhook: &Option<WebhookConfig>)
    ensures
        final(out)@ == old(out)@ + default_webhook_section(default_webhook.deep_view()),
{
    let ghost start = out@;
    match default_webhook {
        Some(w) => {
            out.append("default_webhook:\n");
            write_webhook_lines(out, w, "  ");
            out.append("\n");
        },
        None => {},
    }
    proof {
        assert(out@ =~= start + default_webhook_section(default_webhook.deep_view()));
    }
}

/// Writes the section of the repositories.
pub fn write_repos_section(
    out: &mut String,
    repos: &Vec<Repo>,
    default_webhook: &Option<WebhookConfig>,
)
    ensures
        final(out)@ == old(out)@ + repos_section(repos.deep_view(), default_webhook.deep_view()),
{
    let ghost start = out@;
    let ghost default_model = default_webhook.deep_view();
    if repos.len() > 0 {
        out.append("repos:\n");
        let mut sorted: Vec<Repo> = Vec::new();
        let mut k: usize = 0;
        while k < repos.len()
            invariant
                k <= repos.len(),
                sorted.len() == k,
                forall|j: int| 0 <= j < k ==> sorted@[j]@ == repos@[j]@,
            decreases repos.len() - k,
        {
            sorted.push(repos[k].clone());
            k += 1;
        }
        proof {
            assert(sorted.deep_view() =~= repos.deep_view());
        }
        sort_keyed(&mut sorted);
        let ghost all = sorted.deep_view();
        let ghost head = out@;
        proof {
            crate::order::lemma_stable_sort_len(repos.deep_view());
            assert(head + repos_lines(all, default_model, 0) =~= head);
        }
        let mut i: usize = 0;
        while i < sorted.len()
            invariant
                i <= sorted.len(),
                default_model == default_webhook.deep_view(),
                all == sorted.deep_view(),
                out@ == head + repos_lines(all, default_model, i as int),
            decreases sorted.len() - i,
        {
            write_repo_lines(out, &sorted[i], default_webhook);
            proof {
                assert(out@ =~= head + repos_lines(all, default_model, i + 1));
            }
            i += 1;
        }
        out.append("\n");
    }
    proof {
        assert(out@ =~= start + repos_section(repos.deep_view(), default_model));
    }
}

/// Writes the section of the teams.
pub fn write_teams_section(out: &mut String, teams: &Vec<Team>)
    ensures
        final(out)@ == old(out)@ + teams_section(teams.deep_view()),
{
    let ghost start = out@;
    let ghost given = teams.deep_view();
    if teams.len() > 0 {
        out.append("teams:\n");
        let sorted: Vec<Team> = normalize_teams(teams);
        let ghost all = sorted.deep_view();
        let ghost head = out@;
        proof {
            crate::order::lemma_stable_sort_len(
                Seq::new(given.len(), |i: int| sorted_team(given[i])),
            );
            assert(head + teams_lines(all, 0) =~= head);
        }
        let mut i: usize = 0;
        while i < sorted.len()
            invariant
                i <= sorted.len(),
                all == sorted.deep_view(),
                out@ == head + teams_lines(all, i as int),
            decreases sorted.len() - i,
        {
            out.append("- name: ");
            out.append(sorted[i].name.as_str());
            out.append("\n");
            out.append("  members:\n");
            write_event_lines(out, &sorted[i].members, "  ");
            proof {
                assert(out@ =~= head + teams_lines(all, i + 1));
            }
            i += 1;
        }
        out.append("\n");
    }
    proof {
        assert(out@ =~= start + teams_section(given));
    }
}

/// Writes the section of the users.
pub fn write_users_section(out: &mut String, users: &Vec<User>)
    ensures
        final(out)@ == old(out)@ + users_section(users.deep_view()),
{
    let ghost start = out@;
    if users.len() > 0 {
        out.append("users:\n");
        let sorted: Vec<User> = normalize_users(users);
        let ghost all = sorted.deep_view();
        let ghost head = out@;
        proof {
            crate::order::lemma_stable_sort_len(users.deep_view());
            assert(head + users_lines(all, 0) =~= head);
        }
        let mut i: usize = 0;
        while i < sorted.len()
            invariant
                i <= sorted.len(),
                all == sorted.deep_view(),
                out@ == head + users_lines(all, i as int),
            decreases sorted.len() - i,
        {
            out.append("- login: ");
            out.append(sorted[i].login.as_str());
            out.append("\n");
            out.append("  role: ");
            out.append(sorted[i].role.as_str());
            out.append("\n");
            proof {
                assert(out@ =~= head + users_lines(all, i + 1));
            }
            i += 1;
        }
        out.append("\n");
    }
    proof {
        assert(out@ =~= start + users_section(users.deep_view()));
    }
}

impl GitHubClient {
    /// Writes the text of a generated configuration: the organization, the
    /// assignments, the default webhook, the repositories, the teams and
    /// the users, every list sorted by its natural key.
    pub fn render_config(config: &Config) -> (r: String)
        ensures
            r@ == config_text(config@),
    {
        let mut out: String = String::from_str("org: ");
        out.append(config.org.as_str());
        out.append("\n\n");
        write_assignments_section(&mut out, &config.assignments);
        write_default_webhook_section(&mut out, &config.default_webhook);
        write_repos_section(&mut out, &config.repos, &config.default_webhook);
        write_teams_section(&mut out, &config.teams);
        write_users_section(&mut out, &config.users);
        out
    }

    /// Decides what is done with the generated configuration of the
    /// organization: in a dry run its text is reported, with the path it
    /// would have gone to; otherwise it is to be written to the path.
    pub fn generate_config_and_write(&self, config: &Config, config_path: &str, dry_run: bool) -> (r:
        FileAction)
        ensures
            r@ == if dry_run {
                FileActionModel::Report(
                    "Dry run: Would write the following config to "@ + config_path@ + ":\n"@
                        + config_text(config@),
                )
            } else {
                FileActionModel::Write { path: config_path@, content: config_text(config@) }
            },
    {
        let content: String = Self::render_config(config);
        if dry_run {
            let mut text: String = String::from_str("Dry run: Would write the following config to ");
            text.append(config_path);
            text.append(":\n");
            text.append(content.as_str());
            FileAction::Report(text)
        } else {
            FileAction::Write { path: config_path.to_string(), content }
        }
    }
}

} // verus!
