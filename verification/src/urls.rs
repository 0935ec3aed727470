//! The addresses of the API that the client reads from and writes to.

use crate::github::{api_url, GITHUB_API_BASE_URL, GitHubClient};
use crate::text::{decimal, decimal_text};
use vstd::prelude::*;

verus! {

/// The address of a repository.
pub open spec fn repo_url(org: Seq<char>, repo: Seq<char>) -> Seq<char> {
    api_url("/repos/"@ + org + "/"@ + repo)
}

/// The address of the webhooks of a repository.
pub open spec fn hooks_url(org: Seq<char>, repo: Seq<char>) -> Seq<char> {
    repo_url(org, repo) + "/hooks"@
}

/// The address of one webhook of a repository.
pub open spec fn hook_url(org: Seq<char>, repo: Seq<char>, id: int) -> Seq<char> {
    hooks_url(org, repo) + "/"@ + decimal(id)
}

/// The address of the teams of an organization.
pub open spec fn teams_url(org: Seq<char>) -> Seq<char> {
    api_url("/orgs/"@ + org + "/teams"@)
}

/// The address of a team.
pub open spec fn team_url(org: Seq<char>, team: Seq<char>) -> Seq<char> {
    teams_url(org) + "/"@ + team
}

/// The address of the membership of a login in a team.
pub open spec fn team_membership_url(org: Seq<char>, team: Seq<char>, login: Seq<char>) -> Seq<
    char,
> {
    team_url(org, team) + "/memberships/"@ + login
}

/// The address of the membership of a login in an organization.
pub open spec fn membership_url(org: Seq<char>, login: Seq<char>) -> Seq<char> {
    api_url("/orgs/"@ + org + "/memberships/"@ + login)
}

/// The address of the permission of a team on a repository.
pub open spec fn team_repo_url(org: Seq<char>, team: Seq<char>, repo: Seq<char>) -> Seq<char> {
    team_url(org, team) + "/repos/"@ + org + "/"@ + repo
}

/// The address of the list of a team's repositories.
pub open spec fn team_repos_url(org: Seq<char>, team: Seq<char>) -> Seq<char> {
    team_url(org, team) + "/repos?per_page=100"@
}

/// The address of the list of a team's members.
pub open spec fn team_members_url(org: Seq<char>, team: Seq<char>) -> Seq<char> {
    team_url(org, team) + "/members?per_page=100"@
}

/// The address of the list of an organization's repositories.
pub open spec fn org_repos_url(org: Seq<char>) -> Seq<char> {
    api_url("/orgs/"@ + org + "/repos?per_page=100"@)
}

/// The address of the list of an organization's teams.
pub open spec fn org_teams_url(org: Seq<char>) -> Seq<char> {
    api_url("/orgs/"@ + org + "/teams?per_page=100"@)
}

/// The address of the list of an organization's members.
pub open spec fn org_members_url(org: Seq<char>) -> Seq<char> {
    api_url("/orgs/"@ + org + "/members?per_page=100"@)
}

impl GitHubClient {
    /// The address of a repository; its settings are read from there.
    pub fn repo_address(&self, repo_name: &str) -> (r: String)
        ensures
            r@ == repo_url(self.org@, repo_name@),
    {
        let mut s: String = String::from_str(GITHUB_API_BASE_URL);
        s.append("/repos/");
        s.append(self.org.as_str());
        s.append("/");
        s.append(repo_name);
        proof {
            assert(s@ =~= repo_url(self.org@, repo_name@));
        }
        s
    }

    /// The address from which the webhooks of a repository are read, and to
    /// which a new one is posted.
    pub fn hooks_address(&self, repo_name: &str) -> (r: String)
        ensures
            r@ == hooks_url(self.org@, repo_name@),
    {
        let mut s: String = self.repo_address(repo_name);
        s.append("/hooks");
        s
    }

    /// The address of one webhook of a repository.
    pub fn hook_address(&self, repo_name: &str, hook_id: i64) -> (r: String)
        ensures
            r@ == hook_url(self.org@, repo_name@, hook_id as int),
    {
        let mut s: String = self.hooks_address(repo_name);
        s.append("/");
        let id: String = decimal_text(hook_id);
        s.append(id.as_str());
        s
    }

    /// The address of the organization's teams; a new team is posted there.
    pub fn teams_address(&self) -> (r: String)
        ensures
            r@ == teams_url(self.org@),
    {
        let mut s: String = String::from_str(GITHUB_API_BASE_URL);
        s.append("/orgs/");
        s.append(self.org.as_str());
        s.append("/teams");
        proof {
            assert(s@ =~= teams_url(self.org@));
        }
        s
    }

    /// The address of a team.
    pub fn team_address(&self, team_name: &str) -> (r: String)
        ensures
            r@ == team_url(self.org@, team_name@),
    {
        let mut s: String = self.teams_address();
        s.append("/");
        s.append(team_name);
        s
    }

    /// The address of the membership of a login in a team.
    pub fn team_membership_address(&self, team_name: &str, login: &str) -> (r: String)
        ensures
            r@ == team_membership_url(self.org@, team_name@, login@),
    {
        let mut s: String = self.team_address(team_name);
        s.append("/memberships/");
        s.append(login);
        s
    }

    /// The address of the membership of a login in the organization.
    pub fn membership_address(&self, login: &str) -> (r: String)
        ensures
            r@ == membership_url(self.org@, login@),
    {
        let mut s: String = String::from_str(GITHUB_API_BASE_URL);
        s.append("/orgs/");
        s.append(self.org.as_str());
        s.append("/memberships/");
        s.append(login);
        proof {
            assert(s@ =~= membership_url(self.org@, login@));
        }
        s
    }

    /// The address of the permission of a team on a repository.
    pub fn team_repo_address(&self, team_name: &str, repo_name: &str) -> (r: String)
        ensures
            r@ == team_repo_url(self.org@, team_name@, repo_name@),
    {
        let mut s: String = self.team_address(team_name);
        s.append("/repos/");
        s.append(self.org.as_str());
        s.append("/");
        s.append(repo_name);
        s
    }

    /// The address of the list of a team's repositories.
    pub fn team_repos_address(&self, team_name: &str) -> (r: String)
        ensures
            r@ == team_repos_url(self.org@, team_name@),
    {
        let mut s: String = self.team_address(team_name);
        s.append("/repos?per_page=100");
        s
    }

    /// The address of the list of a team's members.
    pub fn team_members_address(&self, team_name: &str) -> (r: String)
        ensures
            r@ == team_members_url(self.org@, team_name@),
    {
        let mut s: String = self.team_address(team_name);
        s.append("/members?per_page=100");
        s
    }

    /// The address of the list of the organization's repositories.
    pub fn org_repos_address(&self) -> (r: String)
        ensures
            r@ == org_repos_url(self.org@),
    {
        let mut s: String = String::from_str(GITHUB_API_BASE_URL);
        s.append("/orgs/");
        s.append(self.org.as_str());
        s.append("/repos?per_page=100");
        proof {
            assert(s@ =~= org_repos_url(self.org@));
        }
        s
    }

    /// The address of the list of the organization's teams.
    pub fn org_teams_address(&self) -> (r: String)
        ensures
            r@ == org_teams_url(self.org@),
    {
        let mut s: String = String::from_str(GITHUB_API_BASE_URL);
        s.append("/orgs/");
        s.append(self.org.as_str());
        s.append("/teams?per_page=100");
        proof {
            assert(s@ =~= org_teams_url(self.org@));
        }
        s
    }

    /// The address of the list of the organization's members.
    pub fn org_members_address(&self) -> (r: String)
        ensures
            r@ == org_members_url(self.org@),
    {
        let mut s: String = String::from_str(GITHUB_API_BASE_URL);
        s.append("/orgs/");
        s.append(self.org.as_str());
        s.append("/members?per_page=100");
        proof {
            assert(s@ =~= org_members_url(self.org@));
        }
        s
    }
}

} // verus!
