//! The field mapping table: which API call writes a configuration key.

use crate::order::{Keyed, Ordered, sort_keyed, stable_sort};
use crate::text::{
    contains, is_prefix, lemma_position_of, lemma_position_of_is, lemma_position_of_none,
    lemma_text_le_total, lemma_text_le_transitive, occurs_in, position_of, same_text, starts_with,
    text_before_eq, text_le,
};
use vstd::prelude::*;

verus! {

broadcast use vstd::std_specs::vec::group_vec_axioms;

/// The kind of resource that an endpoint writes.
#[derive(Clone, Copy, Debug, PartialEq, Eq, Structural)]
pub enum ResourceType {
    Repo,
    Org,
    Team,
    User,
    Project,
    Gist,
    Enterprise,
    Other,
}

impl ResourceType {
    /// The name of the kind, as documents spell it.
    pub fn as_str(&self) -> (r: &'static str)
        ensures
            r@ == self.name(),
    {
        match self {
            ResourceType::Repo => "repo",
            ResourceType::Org => "org",
            ResourceType::Team => "team",
            ResourceType::User => "user",
            ResourceType::Project => "project",
            ResourceType::Gist => "gist",
            ResourceType::Enterprise => "enterprise",
            ResourceType::Other => "other",
        }
    }

    /// The name of the kind.
    pub open spec fn name(self) -> Seq<char> {
        match self {
            ResourceType::Repo => "repo"@,
            ResourceType::Org => "org"@,
            ResourceType::Team => "team"@,
            ResourceType::User => "user"@,
            ResourceType::Project => "project"@,
            ResourceType::Gist => "gist"@,
            ResourceType::Enterprise => "enterprise"@,
            ResourceType::Other => "other"@,
        }
    }
}

/// The kind of resource that an endpoint path writes, by its prefix; the
/// first rule that applies decides.
pub open spec fn resource_type_of(path: Seq<char>) -> ResourceType {
    if is_prefix("/repos/{owner}/{repo}"@, path) || is_prefix("/repos/{org}/{repo}"@, path) {
        ResourceType::Repo
    } else if is_prefix("/orgs/{org}"@, path) {
        ResourceType::Org
    } else if is_prefix("/user"@, path) {
        ResourceType::User
    } else if is_prefix("/teams"@, path) || occurs_in("/teams/"@, path) {
        ResourceType::Team
    } else if is_prefix("/projects"@, path) {
        ResourceType::Project
    } else if is_prefix("/gists"@, path) {
        ResourceType::Gist
    } else if is_prefix("/enterprises/{"@, path) {
        ResourceType::Enterprise
    } else {
        ResourceType::Other
    }
}

/// Infers the kind of resource that an endpoint writes from its path.
pub fn infer_resource_type(endpoint_path: &str) -> (r: ResourceType)
    ensures
        r == resource_type_of(endpoint_path@),
{
    if starts_with(endpoint_path, "/repos/{owner}/{repo}") || starts_with(
        endpoint_path,
        "/repos/{org}/{repo}",
    ) {
        ResourceType::Repo
    } else if starts_with(endpoint_path, "/orgs/{org}") {
        ResourceType::Org
    } else if starts_with(endpoint_path, "/user") {
        ResourceType::User
    } else if starts_with(endpoint_path, "/teams") || contains(endpoint_path, "/teams/") {
        ResourceType::Team
    } else if starts_with(endpoint_path, "/projects") {
        ResourceType::Project
    } else if starts_with(endpoint_path, "/gists") {
        ResourceType::Gist
    } else if starts_with(endpoint_path, "/enterprises/{") {
        ResourceType::Enterprise
    } else {
        ResourceType::Other
    }
}

/// The method of a call that writes.
#[derive(Clone, Copy, Debug, PartialEq, Eq, Structural)]
pub enum HttpMethod {
    Patch,
    Put,
    Post,
}

impl HttpMethod {
    /// The name of the method, in capitals.
    pub open spec fn name(self) -> Seq<char> {
        match self {
            HttpMethod::Patch => "PATCH"@,
            HttpMethod::Put => "PUT"@,
            HttpMethod::Post => "POST"@,
        }
    }

    /// The name of the method, in capitals.
    pub fn as_str(&self) -> (r: &'static str)
        ensures
            r@ == self.name(),
    {
        match self {
            HttpMethod::Patch => "PATCH",
            HttpMethod::Put => "PUT",
            HttpMethod::Post => "POST",
        }
    }
}

/// How a configuration key is written: to which endpoint, by which method,
/// and under which name in the body.
#[derive(Debug)]
pub struct ApiFieldMapping {
    pub resource_type: ResourceType,
    pub config_key: String,
    pub endpoint: String,
    pub method: HttpMethod,
    pub json_path: String,
}

/// The model of an [`ApiFieldMapping`].
pub struct MappingModel {
    pub resource_type: ResourceType,
    pub config_key: Seq<char>,
    pub endpoint: Seq<char>,
    pub method: HttpMethod,
    pub json_path: Seq<char>,
}

impl View for ApiFieldMapping {
    type V = MappingModel;

    open spec fn view(&self) -> MappingModel {
        MappingModel {
            resource_type: self.resource_type,
            config_key: self.config_key@,
            endpoint: self.endpoint@,
            method: self.method,
            json_path: self.json_path@,
        }
    }
}

impl DeepView for ApiFieldMapping {
    type V = MappingModel;

    open spec fn deep_view(&self) -> MappingModel {
        self@
    }
}

impl Clone for ApiFieldMapping {
    fn clone(&self) -> (r: Self)
        ensures
            r@ == self@,
    {
        ApiFieldMapping {
            resource_type: self.resource_type,
            config_key: self.config_key.clone(),
            endpoint: self.endpoint.clone(),
            method: self.method,
            json_path: self.json_path.clone(),
        }
    }
}

impl Ordered for MappingModel {
    open spec fn before_eq(&self, other: &Self) -> bool {
        text_le(self.config_key, other.config_key)
    }

    proof fn lemma_total(a: &Self, b: &Self) {
        lemma_text_le_total(a.config_key, b.config_key);
    }

    proof fn lemma_transitive(a: &Self, b: &Self, c: &Self) {
        lemma_text_le_transitive(a.config_key, b.config_key, c.config_key);
    }
}

impl Keyed for ApiFieldMapping {
    fn precedes(&self, other: &Self) -> (r: bool) {
        text_before_eq(self.config_key.as_str(), other.config_key.as_str())
    }
}

/// The keys of a table's entries, in order.
pub open spec fn table_keys(table: Seq<MappingModel>) -> Seq<Seq<char>> {
    Seq::new(table.len(), |i: int| table[i].config_key)
}

/// The entry that a table holds for a key: the first one under it.
pub open spec fn table_lookup(table: Seq<MappingModel>, key: Seq<char>) -> Option<MappingModel> {
    match position_of(table_keys(table), key) {
        Some(i) => Some(table[i]),
        None => None,
    }
}

/// The mapping table: at most one entry for a configuration key.
#[derive(Debug)]
pub struct MappingTable {
    pub entries: Vec<ApiFieldMapping>,
}

impl View for MappingTable {
    type V = Seq<MappingModel>;

    open spec fn view(&self) -> Seq<MappingModel> {
        self.entries.deep_view()
    }
}

impl MappingTable {
    /// No key has two entries.
    pub open spec fn well_formed(&self) -> bool {
        table_keys(self@).no_duplicates()
    }

    /// The empty table.
    pub fn new() -> (r: Self)
        ensures
            r@ == Seq::<MappingModel>::empty(),
            r.well_formed(),
    {
        let r = MappingTable { entries: Vec::new() };
        proof {
            assert(r@ =~= Seq::<MappingModel>::empty());
        }
        r
    }

    /// The number of entries.
    pub fn len(&self) -> (n: usize)
        ensures
            n == self@.len(),
    {
        self.entries.len()
    }

    /// The position of the entry for `key`.
    pub fn position(&self, key: &str) -> (r: Option<usize>)
        ensures
            match r {
                Some(i) => i < self@.len() && position_of(table_keys(self@), key@) == Some(
                    i as int,
                ),
                None => position_of(table_keys(self@), key@) is None,
            },
    {
        let ghost keys = table_keys(self@);
        let mut i: usize = 0;
        while i < self.entries.len()
            invariant
                i <= self.entries.len(),
                keys == table_keys(self@),
                forall|j: int| 0 <= j < i ==> keys[j] != key@,
            decreases self.entries.len() - i,
        {
            if same_text(self.entries[i].config_key.as_str(), key) {
                proof {
                    lemma_position_of_is(keys, key@, i as int);
                }
                return Some(i);
            }
            i += 1;
        }
        proof {
            lemma_position_of_none(keys, key@);
        }
        None
    }

    /// The entry for `key`, if the table has one.
    pub fn get(&self, key: &str) -> (r: Option<&ApiFieldMapping>)
        ensures
            r.deep_view() == table_lookup(self@, key@),
    {
        match self.position(key) {
            Some(i) => Some(&self.entries[i]),
            None => None,
        }
    }

    /// The entry for `key`, if the table has one.
    pub fn lookup(&self, key: &str) -> (r: Option<&ApiFieldMapping>)
        ensures
            r.deep_view() == table_lookup(self@, key@),
    {
        self.get(key)
    }

    /// Whether the table has an entry for `key`.
    pub fn contains_key(&self, key: &str) -> (r: bool)
        ensures
            r == table_lookup(self@, key@) is Some,
    {
        self.position(key).is_some()
    }

    /// Copies of the entries, sorted by key.
    pub fn sorted_by_key(&self) -> (r: Vec<ApiFieldMapping>)
        ensures
            r.deep_view() == stable_sort(self@),
    {
        let mut out: Vec<ApiFieldMapping> = Vec::new();
        let mut i: usize = 0;
        while i < self.entries.len()
            invariant
                i <= self.entries.len(),
                out.len() == i,
                forall|k: int| 0 <= k < i ==> out@[k]@ == self.entries@[k]@,
            decreases self.entries.len() - i,
        {
            out.push(self.entries[i].clone());
            i += 1;
        }
        proof {
            assert(out.deep_view() =~= self@);
        }
        sort_keyed(&mut out);
        out
    }

    /// Puts `mapping` into the table: in place of the entry for its key, or
    /// behind all entries if the key has none.
    pub fn insert(&mut self, mapping: ApiFieldMapping)
        ensures
            match position_of(table_keys(old(self)@), mapping.config_key@) {
                Some(i) => final(self)@ == old(self)@.update(i, mapping@),
                None => final(self)@ == old(self)@.push(mapping@),
            },
            old(self).well_formed() ==> final(self).well_formed(),
    {
        let ghost keys = table_keys(self@);
        proof {
            lemma_position_of(keys, mapping.config_key@);
        }
        match self.position(mapping.config_key.as_str()) {
            Some(i) => {
                self.entries.set(i, mapping);
                proof {
                    assert(self@ =~= old(self)@.update(i as int, mapping@));
                    assert(table_keys(self@) =~= keys);
                }
            },
            None => {
                self.entries.push(mapping);
                proof {
                    assert(self@ =~= old(self)@.push(mapping@));
                    assert(table_keys(self@) =~= keys.push(mapping.config_key@));
                }
            },
        }
    }
}

/// A mapping of a repository setting that is written by `PATCH` to the
/// repository itself, under its own name.
pub open spec fn repo_setting(key: Seq<char>) -> MappingModel {
    MappingModel {
        resource_type: ResourceType::Repo,
        config_key: key,
        endpoint: "/repos/{org}/{repo}"@,
        method: HttpMethod::Patch,
        json_path: key,
    }
}

fn repo_setting_mapping(key: &str) -> (r: ApiFieldMapping)
    ensures
        r@ == repo_setting(key@),
{
    ApiFieldMapping {
        resource_type: ResourceType::Repo,
        config_key: key.to_string(),
        endpoint: "/repos/{org}/{repo}".to_string(),
        method: HttpMethod::Patch,
        json_path: key.to_string(),
    }
}

/// The table of the repository settings that govern how pull requests may
/// be merged.
pub fn get_repo_settings_mapping() -> (r: MappingTable)
    ensures
        r@ == seq![
            repo_setting("allow_merge_commit"@),
            repo_setting("allow_squash_merge"@),
            repo_setting("allow_rebase_merge"@),
        ],
{
    let mut entries: Vec<ApiFieldMapping> = Vec::new();
    entries.push(repo_setting_mapping("allow_merge_commit"));
    entries.push(repo_setting_mapping("allow_squash_merge"));
    entries.push(repo_setting_mapping("allow_rebase_merge"));
    let r = MappingTable { entries };
    proof {
        assert(r@ =~= seq![
            repo_setting("allow_merge_commit"@),
            repo_setting("allow_squash_merge"@),
            repo_setting("allow_rebase_merge"@),
        ]);
    }
    r
}

} // verus!
