//! What holds of the normal forms that are compared.

use crate::config::{ConfigModel, RepoModel, TeamModel};
use crate::normalize::{
    cleared_within, is_default_noise, normal_local, normal_local_repo, normal_remote_repo,
    sorted_team,
};
use crate::order::{
    keys_differ, lemma_mapped_permutation, lemma_stable_sort_of_permutation, Ordered,
    stable_sort,
};
use crate::snapshot::repo_names;
use crate::text::{lemma_text_le_antisymmetric, position_of};
use vstd::prelude::*;

verus! {

/// Two lists of texts that hold the same texts, each as often, are the same
/// list once sorted.
pub proof fn lemma_sorted_texts_of_permutation(a: Seq<Seq<char>>, b: Seq<Seq<char>>)
    requires
        a.to_multiset() == b.to_multiset(),
    ensures
        stable_sort(a) == stable_sort(b),
{
    assert(keys_differ(a)) by {
        assert forall|i: int, j: int|
            #![trigger a[i], a[j]]
            0 <= i < a.len() && 0 <= j < a.len() && a[i].before_eq(&a[j]) && a[j].before_eq(
                &a[i],
            ) implies a[i] == a[j] by {
            lemma_text_le_antisymmetric(a[i], a[j]);
        }
    }
    lemma_stable_sort_of_permutation(a, b);
}

/// A default webhook that GitHub already has is no difference. Where a
/// local repository names no webhook, the configuration has a default one,
/// and the remote repository of that name has a webhook that posts to the
/// same address in the same content type on the same events, in whatever
/// order, neither side shows a webhook for the repository in normal form.
pub proof fn lemma_default_webhook_is_no_difference(
    local: ConfigModel,
    remote: ConfigModel,
    i: int,
    k: int,
)
    requires
        0 <= i < local.repos.len(),
        0 <= k < remote.repos.len(),
        local.repos[i].webhook is None,
        local.default_webhook is Some,
        position_of(repo_names(remote.repos), local.repos[i].name) == Some(k),
        remote.repos[k].webhook is Some,
        remote.repos[k].webhook->0.url == local.default_webhook->0.url,
        remote.repos[k].webhook->0.content_type == local.default_webhook->0.content_type,
        remote.repos[k].webhook->0.events.to_multiset()
            == local.default_webhook->0.events.to_multiset(),
    ensures
        normal_local_repo(local.repos[i], local.default_webhook, remote.repos).webhook is None,
        normal_remote_repo(local.repos, local.default_webhook, remote.repos, k).webhook is None,
{
    lemma_sorted_texts_of_permutation(
        remote.repos[k].webhook->0.events,
        local.default_webhook->0.events,
    );
    assert(is_default_noise(local.repos[i], local.default_webhook, remote.repos));
    assert(cleared_within(
        local.repos,
        local.default_webhook,
        remote.repos,
        k,
        local.repos.len() as int,
    ));
}

/// The order of the lists of a local configuration does not matter for the
/// comparison. Two local configurations that differ only in the order of
/// their repositories, teams, users and assignments have the same normal
/// form, where no two different repositories or teams share a name, no two
/// different users a login, and no two different assignments a team and a
/// repository.
pub proof fn lemma_order_of_local_lists_does_not_matter(
    a: ConfigModel,
    b: ConfigModel,
    remote: ConfigModel,
)
    requires
        a.org == b.org,
        a.default_webhook == b.default_webhook,
        a.default_branch_protections == b.default_branch_protections,
        a.extra == b.extra,
        a.repos.to_multiset() == b.repos.to_multiset(),
        a.teams.to_multiset() == b.teams.to_multiset(),
        a.users.to_multiset() == b.users.to_multiset(),
        a.assignments.to_multiset() == b.assignments.to_multiset(),
        forall|i: int, j: int|
            #![trigger a.repos[i], a.repos[j]]
            0 <= i < a.repos.len() && 0 <= j < a.repos.len() && a.repos[i].name
                == a.repos[j].name ==> a.repos[i] == a.repos[j],
        forall|i: int, j: int|
            #![trigger a.teams[i], a.teams[j]]
            0 <= i < a.teams.len() && 0 <= j < a.teams.len() && a.teams[i].name
                == a.teams[j].name ==> a.teams[i] == a.teams[j],
        forall|i: int, j: int|
            #![trigger a.users[i], a.users[j]]
            0 <= i < a.users.len() && 0 <= j < a.users.len() && a.users[i].login
                == a.users[j].login ==> a.users[i] == a.users[j],
        forall|i: int, j: int|
            #![trigger a.assignments[i], a.assignments[j]]
            0 <= i < a.assignments.len() && 0 <= j < a.assignments.len()
                && a.assignments[i].team == a.assignments[j].team && a.assignments[i].repo
                == a.assignments[j].repo ==> a.assignments[i] == a.assignments[j],
    ensures
        normal_local(a, remote) == normal_local(b, remote),
{
    // Repositories.
    let repo = |r: RepoModel| normal_local_repo(r, a.default_webhook, remote.repos);
    let repos_a = Seq::new(
        a.repos.len(),
        |i: int| normal_local_repo(a.repos[i], a.default_webhook, remote.repos),
    );
    let repos_b = Seq::new(
        b.repos.len(),
        |i: int| normal_local_repo(b.repos[i], b.default_webhook, remote.repos),
    );
    assert(repos_a =~= a.repos.map_values(repo));
    assert(repos_b =~= b.repos.map_values(repo));
    lemma_mapped_permutation(a.repos, b.repos, repo);
    assert(keys_differ(repos_a)) by {
        assert forall|i: int, j: int|
            #![trigger repos_a[i], repos_a[j]]
            0 <= i < repos_a.len() && 0 <= j < repos_a.len() && repos_a[i].before_eq(&repos_a[j])
                && repos_a[j].before_eq(&repos_a[i]) implies repos_a[i] == repos_a[j] by {
            lemma_text_le_antisymmetric(a.repos[i].name, a.repos[j].name);
            assert(a.repos[i] == a.repos[j]);
        }
    }
    lemma_stable_sort_of_permutation(repos_a, repos_b);
    // Teams.
    let team = |t: TeamModel| sorted_team(t);
    let teams_a = Seq::new(a.teams.len(), |i: int| sorted_team(a.teams[i]));
    let teams_b = Seq::new(b.teams.len(), |i: int| sorted_team(b.teams[i]));
    assert(teams_a =~= a.teams.map_values(team));
    assert(teams_b =~= b.teams.map_values(team));
    lemma_mapped_permutation(a.teams, b.teams, team);
    assert(keys_differ(teams_a)) by {
        assert forall|i: int, j: int|
            #![trigger teams_a[i], teams_a[j]]
            0 <= i < teams_a.len() && 0 <= j < teams_a.len() && teams_a[i].before_eq(&teams_a[j])
                && teams_a[j].before_eq(&teams_a[i]) implies teams_a[i] == teams_a[j] by {
            lemma_text_le_antisymmetric(a.teams[i].name, a.teams[j].name);
            assert(a.teams[i] == a.teams[j]);
        }
    }
    lemma_stable_sort_of_permutation(teams_a, teams_b);
    // Users.
    assert(keys_differ(a.users)) by {
        assert forall|i: int, j: int|
            #![trigger a.users[i], a.users[j]]
            0 <= i < a.users.len() && 0 <= j < a.users.len() && a.users[i].before_eq(&a.users[j])
                && a.users[j].before_eq(&a.users[i]) implies a.users[i] == a.users[j] by {
            lemma_text_le_antisymmetric(a.users[i].login, a.users[j].login);
        }
    }
    lemma_stable_sort_of_permutation(a.users, b.users);
    // Assignments.
    assert(keys_differ(a.assignments)) by {
        assert forall|i: int, j: int|
            #![trigger a.assignments[i], a.assignments[j]]
            0 <= i < a.assignments.len() && 0 <= j < a.assignments.len()
                && a.assignments[i].before_eq(&a.assignments[j]) && a.assignments[j].before_eq(
                &a.assignments[i],
            ) implies a.assignments[i] == a.assignments[j] by {
            let x = a.assignments[i];
            let y = a.assignments[j];
            if x.team == y.team {
                lemma_text_le_antisymmetric(x.repo, y.repo);
            } else {
                lemma_text_le_antisymmetric(x.team, y.team);
            }
        }
    }
    lemma_stable_sort_of_permutation(a.assignments, b.assignments);
}

} // verus!
