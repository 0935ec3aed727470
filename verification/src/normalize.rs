//! Normalization before a comparison: both configurations are brought to a
//! form in which what does not matter cannot differ.

use crate::config::{
    Assignment, Config, ConfigModel, copy_optional_text, copy_rules, copy_texts, Repo, RepoModel,
    Team, TeamModel, texts, User, WebhookConfig, WebhookModel,
};
use crate::order::{sort_keyed, stable_sort};
use crate::snapshot::{find_repo, repo_names};
use crate::sync::with_default_webhook;
use crate::text::{lemma_position_of, position_of, same_text};
use vstd::prelude::*;

verus! {

broadcast use vstd::std_specs::vec::group_vec_axioms;

/// The webhook with its events sorted.
pub open spec fn sorted_events(w: WebhookModel) -> WebhookModel {
    WebhookModel { events: stable_sort(w.events), ..w }
}

/// The webhook, if there is one, with its events sorted.
pub open spec fn sorted_webhook(w: Option<WebhookModel>) -> Option<WebhookModel> {
    match w {
        Some(w) => Some(sorted_events(w)),
        None => None,
    }
}

/// The webhook of a local repository is nothing but the default applied,
/// on both sides: the repository names no webhook of its own, and the
/// remote repository of its name has the default one, whatever the order of
/// its events.
pub open spec fn is_default_noise(
    local: RepoModel,
    default_webhook: Option<WebhookModel>,
    remote: Seq<RepoModel>,
) -> bool {
    &&& local.webhook is None
    &&& default_webhook is Some
    &&& match position_of(repo_names(remote), local.name) {
        Some(k) => sorted_webhook(remote[k].webhook) == sorted_webhook(default_webhook),
        None => false,
    }
}

/// A local repository in normal form: with the default webhook where it
/// names none, the events of its webhook sorted; without a webhook where
/// that would be nothing but the default applied on both sides.
pub open spec fn normal_local_repo(
    local: RepoModel,
    default_webhook: Option<WebhookModel>,
    remote: Seq<RepoModel>,
) -> RepoModel {
    RepoModel {
        webhook: if is_default_noise(local, default_webhook, remote) {
            None
        } else {
            sorted_webhook(with_default_webhook(local, default_webhook).webhook)
        },
        ..local
    }
}

/// One of the first `upto` local repositories has a webhook that is
/// nothing but the default applied, and the remote repository of its name
/// is the one at `k`.
pub open spec fn cleared_within(
    local: Seq<RepoModel>,
    default_webhook: Option<WebhookModel>,
    remote: Seq<RepoModel>,
    k: int,
    upto: int,
) -> bool {
    exists|i: int|
        0 <= i < upto && i < local.len() && is_default_noise(
            #[trigger] local[i],
            default_webhook,
            remote,
        ) && position_of(repo_names(remote), local[i].name) == Some(k)
}

/// A remote repository in normal form: the events of its webhook sorted;
/// without a webhook where that is nothing but the default applied on both
/// sides.
pub open spec fn normal_remote_repo(
    local: Seq<RepoModel>,
    default_webhook: Option<WebhookModel>,
    remote: Seq<RepoModel>,
    k: int,
) -> RepoModel {
    RepoModel {
        webhook: if cleared_within(local, default_webhook, remote, k, local.len() as int) {
            None
        } else {
            sorted_webhook(remote[k].webhook)
        },
        ..remote[k]
    }
}

/// A team with its members sorted.
pub open spec fn sorted_team(team: TeamModel) -> TeamModel {
    TeamModel { members: stable_sort(team.members), ..team }
}

/// The teams, each with its members sorted, sorted by name.
pub open spec fn normal_teams(teams: Seq<TeamModel>) -> Seq<TeamModel> {
    stable_sort(Seq::new(teams.len(), |i: int| sorted_team(teams[i])))
}

/// The local configuration in normal form for a comparison with `remote`:
/// the default webhook applied and then left out, the webhooks that are
/// nothing but the default left out as well, and every list sorted by its
/// natural key.
pub open spec fn normal_local(local: ConfigModel, remote: ConfigModel) -> ConfigModel {
    ConfigModel {
        repos: stable_sort(
            Seq::new(
                local.repos.len(),
                |i: int| normal_local_repo(local.repos[i], local.default_webhook, remote.repos),
            ),
        ),
        teams: normal_teams(local.teams),
        users: stable_sort(local.users),
        assignments: stable_sort(local.assignments),
        default_webhook: None,
        ..local
    }
}

/// The remote configuration in normal form for a comparison with `local`.
pub open spec fn normal_remote(local: ConfigModel, remote: ConfigModel) -> ConfigModel {
    ConfigModel {
        repos: stable_sort(
            Seq::new(
                remote.repos.len(),
                |k: int| normal_remote_repo(local.repos, local.default_webhook, remote.repos, k),
            ),
        ),
        teams: normal_teams(remote.teams),
        users: stable_sort(remote.users),
        assignments: stable_sort(remote.assignments),
        ..remote
    }
}

/// A copy of the webhook with its events sorted.
pub fn sort_events(w: &WebhookConfig) -> (r: WebhookConfig)
    ensures
        r@ == sorted_events(w@),
{
    let mut events: Vec<String> = copy_texts(&w.events);
    proof {
        assert(events.deep_view() =~= texts(w.events@));
    }
    sort_keyed(&mut events);
    proof {
        assert(texts(events@) =~= events.deep_view());
    }
    WebhookConfig { url: w.url.clone(), content_type: w.content_type.clone(), events }
}

/// A copy of the webhook, if there is one, with its events sorted.
pub fn sort_optional_events(w: &Option<WebhookConfig>) -> (r: Option<WebhookConfig>)
    ensures
        r.deep_view() == sorted_webhook(w.deep_view()),
{
    match w {
        Some(w) => Some(sort_events(w)),
        None => None,
    }
}

/// Tests whether two lists hold the same texts in the same order.
pub fn same_texts(a: &Vec<String>, b: &Vec<String>) -> (r: bool)
    ensures
        r == (texts(a@) == texts(b@)),
{
    if a.len() != b.len() {
        proof {
            assert(texts(a@).len() != texts(b@).len());
        }
        return false;
    }
    let mut i: usize = 0;
    while i < a.len()
        invariant
            i <= a.len(),
            a.len() == b.len(),
            forall|k: int| 0 <= k < i ==> a@[k]@ == b@[k]@,
        decreases a.len() - i,
    {
        if !same_text(a[i].as_str(), b[i].as_str()) {
            proof {
                assert(texts(a@)[i as int] != texts(b@)[i as int]);
            }
            return false;
        }
        i += 1;
    }
    proof {
        assert(texts(a@) =~= texts(b@));
    }
    true
}

/// Tests whether two webhooks are the same.
pub fn same_webhook(a: &Option<WebhookConfig>, b: &Option<WebhookConfig>) -> (r: bool)
    ensures
        r == (a.deep_view() == b.deep_view()),
{
    match (a, b) {
        (Some(x), Some(y)) => same_text(x.url.as_str(), y.url.as_str()) && same_text(
            x.content_type.as_str(),
            y.content_type.as_str(),
        ) && same_texts(&x.events, &y.events),
        (None, None) => true,
        _ => false,
    }
}

/// A copy of a repository with another webhook.
fn with_webhook(repo: &Repo, webhook: Option<WebhookConfig>) -> (r: Repo)
    ensures
        r@ == (RepoModel { webhook: webhook.deep_view(), ..repo@ }),
{
    Repo {
        name: repo.name.clone(),
        settings: repo.settings.clone(),
        visibility: copy_optional_text(&repo.visibility),
        webhook,
        branch_protections: copy_rules(&repo.branch_protections),
        extra: repo.extra.clone(),
    }
}

/// Copies of the teams, each with its members sorted, sorted by name.
pub fn normalize_teams(teams: &Vec<Team>) -> (r: Vec<Team>)
    ensures
        r.deep_view() == normal_teams(teams.deep_view()),
{
    let mut out: Vec<Team> = Vec::new();
    let mut i: usize = 0;
    while i < teams.len()
        invariant
            i <= teams.len(),
            out.len() == i,
            forall|k: int| 0 <= k < i ==> out@[k]@ == sorted_team(teams@[k]@),
        decreases teams.len() - i,
    {
        let mut members: Vec<String> = copy_texts(&teams[i].members);
        proof {
            assert(members.deep_view() =~= texts(teams@[i as int].members@));
        }
        sort_keyed(&mut members);
        proof {
            assert(texts(members@) =~= members.deep_view());
        }
        out.push(Team { name: teams[i].name.clone(), members });
        i += 1;
    }
    proof {
        assert(out.deep_view() =~= Seq::new(
            teams.deep_view().len(),
            |i: int| sorted_team(teams.deep_view()[i]),
        ));
    }
    sort_keyed(&mut out);
    out
}

/// Copies of the users, sorted by login.
pub fn normalize_users(users: &Vec<User>) -> (r: Vec<User>)
    ensures
        r.deep_view() == stable_sort(users.deep_view()),
{
    let mut out: Vec<User> = Vec::new();
    let mut i: usize = 0;
    while i < users.len()
        invariant
            i <= users.len(),
            out.len() == i,
            forall|k: int| 0 <= k < i ==> out@[k]@ == users@[k]@,
        decreases users.len() - i,
    {
        out.push(users[i].clone());
        i += 1;
    }
    proof {
        assert(out.deep_view() =~= users.deep_view());
    }
    sort_keyed(&mut out);
    out
}

/// Copies of the assignments, sorted by team and repository.
pub fn normalize_assignments(assignments: &Vec<Assignment>) -> (r: Vec<Assignment>)
    ensures
        r.deep_view() == stable_sort(assignments.deep_view()),
{
    let mut out: Vec<Assignment> = Vec::new();
    let mut i: usize = 0;
    while i < assignments.len()
        invariant
            i <= assignments.len(),
            out.len() == i,
            forall|k: int| 0 <= k < i ==> out@[k]@ == assignments@[k]@,
        decreases assignments.len() - i,
    {
        out.push(assignments[i].clone());
        i += 1;
    }
    proof {
        assert(out.deep_view() =~= assignments.deep_view());
    }
    sort_keyed(&mut out);
    out
}

/// Brings a local configuration and the remote one it is compared with to
/// normal form; see [`normal_local`] and [`normal_remote`].
pub fn normalize(local: &Config, remote: &Config) -> (r: (Config, Config))
    ensures
        r.0@ == normal_local(local@, remote@),
        r.1@ == normal_remote(local@, remote@),
{
    let ghost lm = local@;
    let ghost rm = remote@;
    let sorted_default: Option<WebhookConfig> = sort_optional_events(&local.default_webhook);
    // Which remote webhooks are nothing but the default applied.
    let mut cleared: Vec<bool> = Vec::new();
    let mut c: usize = 0;
    while c < remote.repos.len()
        invariant
            c <= remote.repos.len(),
            cleared.len() == c,
            forall|k: int| 0 <= k < c ==> !cleared@[k],
        decreases remote.repos.len() - c,
    {
        cleared.push(false);
        c += 1;
    }
    let mut local_repos: Vec<Repo> = Vec::new();
    let mut i: usize = 0;
    while i < local.repos.len()
        invariant
            i <= local.repos.len(),
            lm == local@,
            rm == remote@,
            sorted_default.deep_view() == sorted_webhook(lm.default_webhook),
            cleared.len() == remote.repos.len(),
            local_repos.len() == i,
            forall|k: int|
                0 <= k < i ==> local_repos@[k]@ == normal_local_repo(
                    lm.repos[k],
                    lm.default_webhook,
                    rm.repos,
                ),
            forall|k: int|
                0 <= k < rm.repos.len() ==> cleared@[k] == cleared_within(
                    lm.repos,
                    lm.default_webhook,
                    rm.repos,
                    k,
                    i as int,
                ),
        decreases local.repos.len() - i,
    {
        let repo: &Repo = &local.repos[i];
        let ghost before = cleared@;
        let mut noise: bool = false;
        let mut at: usize = 0;
        if repo.webhook.is_none() && local.default_webhook.is_some() {
            match find_repo(&remote.repos, repo.name.as_str()) {
                Some(k) => {
                    let seen: Option<WebhookConfig> = sort_optional_events(&remote.repos[k].webhook);
                    if same_webhook(&seen, &sorted_default) {
                        noise = true;
                        at = k;
                    }
                },
                None => {},
            }
        }
        proof {
            assert(noise == is_default_noise(lm.repos[i as int], lm.default_webhook, rm.repos));
            lemma_position_of(repo_names(rm.repos), lm.repos[i as int].name);
        }
        let webhook: Option<WebhookConfig> = if noise {
            cleared.set(at, true);
            None
        } else {
            match &repo.webhook {
                Some(w) => Some(sort_events(w)),
                None => sort_optional_events(&local.default_webhook),
            }
        };
        proof {
            assert forall|k: int| 0 <= k < rm.repos.len() implies cleared@[k] == cleared_within(
                lm.repos,
                lm.default_webhook,
                rm.repos,
                k,
                i + 1,
            ) by {
                let here: bool = noise && at == k;
                assert(cleared@[k] == (before[k] || here));
                if cleared_within(lm.repos, lm.default_webhook, rm.repos, k, i + 1) {
                    let w = choose|w: int|
                        0 <= w < i + 1 && w < lm.repos.len() && is_default_noise(
                            #[trigger] lm.repos[w],
                            lm.default_webhook,
                            rm.repos,
                        ) && position_of(repo_names(rm.repos), lm.repos[w].name) == Some(k);
                    if w < i {
                        assert(cleared_within(lm.repos, lm.default_webhook, rm.repos, k, i as int));
                    }
                }
                if before[k] {
                    let w = choose|w: int|
                        0 <= w < i && w < lm.repos.len() && is_default_noise(
                            #[trigger] lm.repos[w],
                            lm.default_webhook,
                            rm.repos,
                        ) && position_of(repo_names(rm.repos), lm.repos[w].name) == Some(k);
                    assert(cleared_within(lm.repos, lm.default_webhook, rm.repos, k, i + 1));
                }
                if here {
                    assert(is_default_noise(lm.repos[i as int], lm.default_webhook, rm.repos));
                    assert(cleared_within(lm.repos, lm.default_webhook, rm.repos, k, i + 1));
                }
            }
        }
        local_repos.push(with_webhook(repo, webhook));
        i += 1;
    }
    let mut remote_repos: Vec<Repo> = Vec::new();
    let mut k: usize = 0;
    while k < remote.repos.len()
        invariant
            k <= remote.repos.len(),
            lm == local@,
            rm == remote@,
            cleared.len() == remote.repos.len(),
            remote_repos.len() == k,
            forall|j: int|
                0 <= j < rm.repos.len() ==> cleared@[j] == cleared_within(
                    lm.repos,
                    lm.default_webhook,
                    rm.repos,
                    j,
                    lm.repos.len() as int,
                ),
            forall|j: int|
                0 <= j < k ==> remote_repos@[j]@ == normal_remote_repo(
                    lm.repos,
                    lm.default_webhook,
                    rm.repos,
                    j,
                ),
        decreases remote.repos.len() - k,
    {
        let webhook: Option<WebhookConfig> = if cleared[k] {
            None
        } else {
            sort_optional_events(&remote.repos[k].webhook)
        };
        remote_repos.push(with_webhook(&remote.repos[k], webhook));
        k += 1;
    }
    proof {
        assert(local_repos.deep_view() =~= Seq::new(
            lm.repos.len(),
            |i: int| normal_local_repo(lm.repos[i], lm.default_webhook, rm.repos),
        ));
        assert(remote_repos.deep_view() =~= Seq::new(
            rm.repos.len(),
            |k: int| normal_remote_repo(lm.repos, lm.default_webhook, rm.repos, k),
        ));
    }
    sort_keyed(&mut local_repos);
    sort_keyed(&mut remote_repos);
    let normal_local_config = Config {
        org: local.org.clone(),
        repos: local_repos,
        teams: normalize_teams(&local.teams),
        users: normalize_users(&local.users),
        assignments: normalize_assignments(&local.assignments),
        default_webhook: None,
        default_branch_protections: copy_rules(&local.default_branch_protections),
        extra: local.extra.clone(),
    };
    let normal_remote_config = Config {
        org: remote.org.clone(),
        repos: remote_repos,
        teams: normalize_teams(&remote.teams),
        users: normalize_users(&remote.users),
        assignments: normalize_assignments(&remote.assignments),
        default_webhook: crate::config::copy_optional_webhook(&remote.default_webhook),
        default_branch_protections: copy_rules(&remote.default_branch_protections),
        extra: remote.extra.clone(),
    };
    (normal_local_config, normal_remote_config)
}

} // verus!
