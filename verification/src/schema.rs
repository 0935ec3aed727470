//! Reading the mapping table off an API schema: every field of a request
//! body of a call that writes is a candidate for the key of its name.

use crate::api_mapping::{
    ApiFieldMapping, HttpMethod, infer_resource_type, MappingModel, MappingTable, resource_type_of,
};
use crate::collision::collected;

use crate::error::{outcome, AppError, ErrorModel};
use crate::node::{dict_get, entries_view, find_entry, lemma_view_mapping, Node, Tree};
use crate::order::stable_sort;
use crate::text::{
    matches_ignoring_case, replace_all, replaced, same_but_for_case, split, split_at_char,
    strip_prefixes, stripped,
};
use vstd::prelude::*;

verus! {

broadcast use vstd::std_specs::vec::group_vec_axioms;

/// What a mapping holds under a key; nothing where the value is no mapping.
pub open spec fn field(tree: Tree, key: Seq<char>) -> Option<Tree> {
    match tree {
        Tree::Dict(entries) => dict_get(entries, key),
        _ => None,
    }
}

/// A part of a reference as the key it stands for: `~1` stands for a
/// slash, `~0` for a tilde.
pub open spec fn decoded_part(part: Seq<char>) -> Seq<char> {
    replaced(replaced(part, "~1"@, "/"@), "~0"@, "~"@)
}

/// The parts of a reference: what stands between the slashes, behind the
/// `#/` at its start.
pub open spec fn reference_parts(reference: Seq<char>) -> Seq<Seq<char>> {
    split(stripped(reference, "#/"@), '/')
}

/// Where the first `upto` parts of a reference lead from a value.
pub open spec fn descend(tree: Tree, parts: Seq<Seq<char>>, upto: int) -> Option<Tree>
    decreases upto,
{
    if upto <= 0 {
        Some(tree)
    } else {
        match descend(tree, parts, upto - 1) {
            Some(t) => field(t, decoded_part(parts[upto - 1])),
            None => None,
        }
    }
}

/// What a reference of a schema leads to, if it leads anywhere.
pub open spec fn resolved_ref(schema: Tree, reference: Seq<char>) -> Option<Tree> {
    descend(schema, reference_parts(reference), reference_parts(reference).len() as int)
}

/// The method that a name of an operation stands for, whatever the case of
/// its letters; none where the operation does not write.
pub open spec fn method_named(name: Seq<char>) -> Option<HttpMethod> {
    if same_but_for_case(name, "patch"@) {
        Some(HttpMethod::Patch)
    } else if same_but_for_case(name, "put"@) {
        Some(HttpMethod::Put)
    } else if same_but_for_case(name, "post"@) {
        Some(HttpMethod::Post)
    } else {
        None
    }
}

/// The schema of the JSON body that an operation takes, if it takes one.
pub open spec fn request_schema(operation: Tree) -> Option<Tree> {
    match field(operation, "requestBody"@) {
        Some(body) => match field(body, "content"@) {
            Some(content) => match field(content, "application/json"@) {
                Some(json) => field(json, "schema"@),
                None => None,
            },
            None => None,
        },
        None => None,
    }
}

/// The reference that a schema is, if it is one.
pub open spec fn reference_of(schema: Tree) -> Option<Seq<char>> {
    match field(schema, "$ref"@) {
        Some(Tree::Text(reference)) => Some(reference),
        _ => None,
    }
}

/// The properties that a schema declares; none where it declares them in
/// no mapping.
pub open spec fn properties(schema: Tree) -> Seq<(Seq<char>, Tree)> {
    match field(schema, "properties"@) {
        Some(Tree::Dict(entries)) => entries,
        _ => Seq::empty(),
    }
}

/// The candidates that the properties of a body's schema make: each field
/// is written to the endpoint by the method, under its own name.
pub open spec fn property_candidates(
    endpoint: Seq<char>,
    method: HttpMethod,
    declared: Seq<(Seq<char>, Tree)>,
) -> Seq<MappingModel> {
    Seq::new(
        declared.len(),
        |i: int|
            MappingModel {
                resource_type: resource_type_of(endpoint),
                config_key: declared[i].0,
                endpoint,
                method,
                json_path: declared[i].0,
            },
    )
}

/// The message for a reference that leads nowhere.
pub open spec fn dangling_reference(reference: Seq<char>) -> ErrorModel {
    ErrorModel::Validation("Failed to resolve ref: "@ + reference)
}

/// The message for a path whose operations are no mapping.
pub open spec fn malformed_path(endpoint: Seq<char>) -> ErrorModel {
    ErrorModel::Validation("Operations are no mapping at path: "@ + endpoint)
}

/// The candidates that an operation makes: none where its name is not that
/// of a method that writes or where it takes no JSON body; an error where
/// the schema of its body is a reference that leads nowhere.
pub open spec fn operation_candidates(
    schema: Tree,
    endpoint: Seq<char>,
    operation: (Seq<char>, Tree),
) -> Result<Seq<MappingModel>, ErrorModel> {
    match method_named(operation.0) {
        None => Ok(Seq::empty()),
        Some(method) => match request_schema(operation.1) {
            None => Ok(Seq::empty()),
            Some(body) => match reference_of(body) {
                Some(reference) => match resolved_ref(schema, reference) {
                    Some(target) => Ok(property_candidates(endpoint, method, properties(target))),
                    None => Err(dangling_reference(reference)),
                },
                None => Ok(property_candidates(endpoint, method, properties(body))),
            },
        },
    }
}

/// The candidates that the first `upto` operations of a path make.
pub open spec fn operations_candidates(
    schema: Tree,
    endpoint: Seq<char>,
    operations: Seq<(Seq<char>, Tree)>,
    upto: int,
) -> Result<Seq<MappingModel>, ErrorModel>
    decreases upto,
{
    if upto <= 0 {
        Ok(Seq::empty())
    } else {
        match operations_candidates(schema, endpoint, operations, upto - 1) {
            Ok(before) => match operation_candidates(schema, endpoint, operations[upto - 1]) {
                Ok(more) => Ok(before + more),
                Err(e) => Err(e),
            },
            Err(e) => Err(e),
        }
    }
}

/// The candidates that a path makes: those of its operations, taken in the
/// order of their names; an error where its operations are no mapping.
pub open spec fn path_candidates(schema: Tree, path: (Seq<char>, Tree)) -> Result<
    Seq<MappingModel>,
    ErrorModel,
> {
    match path.1 {
        Tree::Dict(operations) => operations_candidates(
            schema,
            path.0,
            stable_sort(operations),
            operations.len() as int,
        ),
        _ => Err(malformed_path(path.0)),
    }
}

/// The candidates that the first `upto` paths make.
pub open spec fn paths_candidates(schema: Tree, paths: Seq<(Seq<char>, Tree)>, upto: int) -> Result<
    Seq<MappingModel>,
    ErrorModel,
>
    decreases upto,
{
    if upto <= 0 {
        Ok(Seq::empty())
    } else {
        match paths_candidates(schema, paths, upto - 1) {
            Ok(before) => match path_candidates(schema, paths[upto - 1]) {
                Ok(more) => Ok(before + more),
                Err(e) => Err(e),
            },
            Err(e) => Err(e),
        }
    }
}

/// The candidates that a schema makes: those of its paths, taken in the
/// order of the paths; none where it declares its paths in no mapping.
pub open spec fn schema_candidates(schema: Tree) -> Result<Seq<MappingModel>, ErrorModel> {
    match field(schema, "paths"@) {
        Some(Tree::Dict(paths)) => paths_candidates(schema, stable_sort(paths), paths.len() as int),
        _ => Ok(Seq::empty()),
    }
}

/// The mapping table of a schema: what its candidates make under the
/// collision policy.
pub open spec fn schema_table(schema: Tree) -> Result<Seq<MappingModel>, ErrorModel> {
    match schema_candidates(schema) {
        Ok(candidates) => Ok(collected(candidates, candidates.len() as int)),
        Err(e) => Err(e),
    }
}

/// What a mapping holds under a key.
pub fn get_field<'a>(node: &'a Node, key: &str) -> (r: Option<&'a Node>)
    ensures
        r.deep_view() == field(node@, key@),
{
    match node {
        Node::Mapping(entries) => {
            proof {
                lemma_view_mapping(*entries);
            }
            match find_entry(entries, key) {
                Some(i) => Some(&entries[i].1),
                None => None,
            }
        },
        _ => None,
    }
}

/// Follows a reference through a schema.
#[verifier::loop_isolation(false)]
pub fn resolve_ref<'a>(schema: &'a Node, ref_path: &str) -> (r: Option<&'a Node>)
    ensures
        r.deep_view() == resolved_ref(schema@, ref_path@),
{
    let bare: String = strip_prefixes(ref_path, "#/");
    let parts: Vec<String> = split_at_char(bare.as_str(), '/');
    let ghost all = reference_parts(ref_path@);
    let mut current: &'a Node = schema;
    let mut i: usize = 0;
    while i < parts.len()
        invariant
            i <= parts.len(),
            all == Seq::new(parts@.len(), |k: int| parts@[k]@),
            descend(schema@, all, i as int) == Some(current@),
        decreases parts.len() - i,
    {
        let slashes: String = replace_all(parts[i].as_str(), "~1", "/");
        let key: String = replace_all(slashes.as_str(), "~0", "~");
        proof {
            assert(all[i as int] == parts@[i as int]@);
        }
        match get_field(current, key.as_str()) {
            Some(next) => {
                current = next;
            },
            None => {
                proof {
                    lemma_descend_fails(schema@, all, i + 1, parts.len() as int);
                }
                return None;
            },
        }
        i += 1;
    }
    Some(current)
}

/// Once a reference leads nowhere, it leads nowhere.
pub proof fn lemma_descend_fails(tree: Tree, parts: Seq<Seq<char>>, at: int, upto: int)
    requires
        at <= upto,
        descend(tree, parts, at) is None,
    ensures
        descend(tree, parts, upto) is None,
    decreases upto - at,
{
    if at < upto {
        lemma_descend_fails(tree, parts, at, upto - 1);
    }
}

/// The method that a name of an operation stands for.
pub fn parse_method(name: &str) -> (r: Option<HttpMethod>)
    ensures
        r == method_named(name@),
{
    if matches_ignoring_case(name, "patch") {
        Some(HttpMethod::Patch)
    } else if matches_ignoring_case(name, "put") {
        Some(HttpMethod::Put)
    } else if matches_ignoring_case(name, "post") {
        Some(HttpMethod::Post)
    } else {
        None
    }
}

/// The entries of a mapping node, sorted by key.
fn sorted_entries(entries: &Vec<(String, Node)>) -> (r: Vec<(String, Node)>)
    ensures
        entries_view(r@) == stable_sort(entries_view(entries@)),
{
    let mut copy: Vec<(String, Node)> = Vec::new();
    let mut i: usize = 0;
    while i < entries.len()
        invariant
            i <= entries.len(),
            copy.len() == i,
            forall|k: int|
                0 <= k < i ==> copy@[k].0@ == entries@[k].0@ && copy@[k].1@ == entries@[k].1@,
        decreases entries.len() - i,
    {
        copy.push((entries[i].0.clone(), entries[i].1.duplicate()));
        i += 1;
    }
    proof {
        assert(copy.deep_view() =~= entries_view(entries@));
    }
    crate::order::sort_keyed(&mut copy);
    proof {
        assert(entries_view(copy@) =~= copy.deep_view());
    }
    copy
}

/// Appends to `out` the candidates that the properties of a body's schema
/// make.
fn push_property_candidates(
    out: &mut Vec<ApiFieldMapping>,
    endpoint: &str,
    method: HttpMethod,
    target: &Node,
)
    ensures
        final(out).deep_view() == old(out).deep_view() + property_candidates(
            endpoint@,
            method,
            properties(target@),
        ),
{
    let ghost start = out.deep_view();
    let ghost declared = properties(target@);
    let ghost wanted = property_candidates(endpoint@, method, declared);
    match get_field(target, "properties") {
        Some(Node::Mapping(entries)) => {
            proof {
                lemma_view_mapping(*entries);
                assert(start + wanted.take(0) =~= start);
            }
            let mut i: usize = 0;
            while i < entries.len()
                invariant
                    i <= entries.len(),
                    declared == entries_view(entries@),
                    wanted == property_candidates(endpoint@, method, declared),
                    out.deep_view() == start + wanted.take(i as int),
                decreases entries.len() - i,
            {
                let candidate = ApiFieldMapping {
                    resource_type: infer_resource_type(endpoint),
                    config_key: entries[i].0.clone(),
                    endpoint: endpoint.to_string(),
                    method,
                    json_path: entries[i].0.clone(),
                };
                let ghost before = out.deep_view();
                out.push(candidate);
                proof {
                    assert(out.deep_view() =~= before.push(candidate@));
                    assert(candidate@ == wanted[i as int]);
                    assert(start + wanted.take(i + 1) =~= (start + wanted.take(i as int)).push(
                        wanted[i as int],
                    ));
                }
                i += 1;
            }
            proof {
                assert(wanted.take(entries.len() as int) =~= wanted);
            }
        },
        _ => {
            proof {
                assert(start + wanted =~= start);
            }
        },
    }
}

/// Appends to `out` the candidates that an operation makes.
fn push_operation_candidates(
    out: &mut Vec<ApiFieldMapping>,
    schema: &Node,
    endpoint: &str,
    name: &str,
    operation: &Node,
) -> (r: Result<(), AppError>)
    ensures
        match operation_candidates(schema@, endpoint@, (name@, operation@)) {
            Ok(more) => r is Ok && final(out).deep_view() == old(out).deep_view() + more,
            Err(e) => r is Err && r->Err_0@ == e,
        },
{
    let ghost start = out.deep_view();
    let method: HttpMethod = match parse_method(name) {
        Some(m) => m,
        None => {
            proof {
                assert(start + Seq::<MappingModel>::empty() =~= start);
            }
            return Ok(());
        },
    };
    let body: Option<&Node> = match get_field(operation, "requestBody") {
        Some(request) => match get_field(request, "content") {
            Some(content) => match get_field(content, "application/json") {
                Some(json) => get_field(json, "schema"),
                None => None,
            },
            None => None,
        },
        None => None,
    };
    match body {
        None => {
            proof {
                assert(start + Seq::<MappingModel>::empty() =~= start);
            }
            Ok(())
        },
        Some(declared) => {
            let reference: Option<&str> = match get_field(declared, "$ref") {
                Some(Node::String(s)) => Some(s.as_str()),
                _ => None,
            };
            match reference {
                Some(path) => match resolve_ref(schema, path) {
                    Some(target) => {
                        push_property_candidates(out, endpoint, method, target);
                        Ok(())
                    },
                    None => Err(
                        AppError::Validation(crate::text::joined("Failed to resolve ref: ", path)),
                    ),
                },
                None => {
                    push_property_candidates(out, endpoint, method, declared);
                    Ok(())
                },
            }
        },
    }
}

/// Appends to `out` the candidates that a path makes.
#[verifier::loop_isolation(false)]
fn push_path_candidates(
    out: &mut Vec<ApiFieldMapping>,
    schema: &Node,
    endpoint: &str,
    operations: &Node,
) -> (r: Result<(), AppError>)
    ensures
        match path_candidates(schema@, (endpoint@, operations@)) {
            Ok(more) => r is Ok && final(out).deep_view() == old(out).deep_view() + more,
            Err(e) => r is Err && r->Err_0@ == e,
        },
{
    let ghost start = out.deep_view();
    match operations {
        Node::Mapping(entries) => {
            proof {
                lemma_view_mapping(*entries);
            }
            let sorted: Vec<(String, Node)> = sorted_entries(entries);
            let ghost all = entries_view(sorted@);
            proof {
                crate::order::lemma_stable_sort_len(entries_view(entries@));
                assert(start + Seq::<MappingModel>::empty() =~= start);
            }
            let mut i: usize = 0;
            while i < sorted.len()
                invariant
                    i <= sorted.len(),
                    all == entries_view(sorted@),
                    match operations_candidates(schema@, endpoint@, all, i as int) {
                        Ok(found) => out.deep_view() == start + found,
                        Err(_) => false,
                    },
                decreases sorted.len() - i,
            {
                let ghost found = operations_candidates(schema@, endpoint@, all, i as int)->Ok_0;
                let ghost before = out.deep_view();
                match push_operation_candidates(
                    out,
                    schema,
                    endpoint,
                    sorted[i].0.as_str(),
                    &sorted[i].1,
                ) {
                    Ok(()) => {
                        proof {
                            let more = operation_candidates(schema@, endpoint@, all[i as int])->Ok_0;
                            assert(start + (found + more) =~= before + more);
                        }
                    },
                    Err(e) => {
                        proof {
                            lemma_operations_fail(
                                schema@,
                                endpoint@,
                                all,
                                i + 1,
                                sorted.len() as int,
                            );
                        }
                        return Err(e);
                    },
                }
                i += 1;
            }
            Ok(())
        },
        _ => Err(
            AppError::Validation(
                crate::text::joined("Operations are no mapping at path: ", endpoint),
            ),
        ),
    }
}

/// Once an operation fails, the path fails with its error.
pub proof fn lemma_operations_fail(
    schema: Tree,
    endpoint: Seq<char>,
    operations: Seq<(Seq<char>, Tree)>,
    at: int,
    upto: int,
)
    requires
        at <= upto,
        operations_candidates(schema, endpoint, operations, at) is Err,
    ensures
        operations_candidates(schema, endpoint, operations, upto) == operations_candidates(
            schema,
            endpoint,
            operations,
            at,
        ),
    decreases upto - at,
{
    if at < upto {
        lemma_operations_fail(schema, endpoint, operations, at, upto - 1);
    }
}

/// Once a path fails, the schema fails with its error.
pub proof fn lemma_paths_fail(schema: Tree, paths: Seq<(Seq<char>, Tree)>, at: int, upto: int)
    requires
        at <= upto,
        paths_candidates(schema, paths, at) is Err,
    ensures
        paths_candidates(schema, paths, upto) == paths_candidates(schema, paths, at),
    decreases upto - at,
{
    if at < upto {
        lemma_paths_fail(schema, paths, at, upto - 1);
    }
}

/// Collects the candidates that a schema makes.
#[verifier::loop_isolation(false)]
pub fn scan_schema(schema: &Node) -> (r: Result<Vec<ApiFieldMapping>, AppError>)
    ensures
        outcome(r) == schema_candidates(schema@),
{
    let mut out: Vec<ApiFieldMapping> = Vec::new();
    proof {
        assert(out.deep_view() =~= Seq::<MappingModel>::empty());
    }
    match get_field(schema, "paths") {
        Some(Node::Mapping(entries)) => {
            proof {
                lemma_view_mapping(*entries);
            }
            let sorted: Vec<(String, Node)> = sorted_entries(entries);
            let ghost all = entries_view(sorted@);
            proof {
                crate::order::lemma_stable_sort_len(entries_view(entries@));
            }
            let mut i: usize = 0;
            while i < sorted.len()
                invariant
                    i <= sorted.len(),
                    all == entries_view(sorted@),
                    paths_candidates(schema@, all, i as int) == Ok::<
                        Seq<MappingModel>,
                        ErrorModel,
                    >(out.deep_view()),
                decreases sorted.len() - i,
            {
                match push_path_candidates(&mut out, schema, sorted[i].0.as_str(), &sorted[i].1) {
                    Ok(()) => {},
                    Err(e) => {
                        proof {
                            lemma_paths_fail(schema@, all, i + 1, sorted.len() as int);
                        }
                        return Err(e);
                    },
                }
                i += 1;
            }
            Ok(out)
        },
        _ => Ok(out),
    }
}

/// Reads the mapping table off a schema: its candidates, path by path and
/// operation by operation in the order of their names, under the collision
/// policy.
pub fn generate_mapping(schema: &Node) -> (r: Result<MappingTable, AppError>)
    ensures
        match schema_table(schema@) {
            Ok(table) => r is Ok && r->Ok_0@ == table,
            Err(e) => r is Err && r->Err_0@ == e,
        },
{
    match scan_schema(schema) {
        Ok(candidates) => Ok(MappingTable::from_candidates(candidates)),
        Err(e) => Err(e),
    }
}

} // verus!
