//! The dynamic value that settings bags and raw configuration documents hold,
//! and its mathematical model.

use crate::text::same_text;
use vstd::prelude::*;

verus! {

broadcast use vstd::std_specs::vec::group_vec_axioms;

/// A number as a document holds it: a non-negative integer, a negative
/// integer, or a floating-point number kept as the text that stands for it
/// in a document.
#[derive(Debug)]
pub enum Number {
    PosInt(u64),
    NegInt(i64),
    Float(String),
}

/// The model of a [`Number`].
pub enum NumberModel {
    PosInt(u64),
    NegInt(i64),
    Float(Seq<char>),
}

impl View for Number {
    type V = NumberModel;

    open spec fn view(&self) -> NumberModel {
        match self {
            Number::PosInt(n) => NumberModel::PosInt(*n),
            Number::NegInt(n) => NumberModel::NegInt(*n),
            Number::Float(s) => NumberModel::Float(s@),
        }
    }
}

impl Number {
    /// Compares two numbers without coercion between kinds: an integer
    /// never equals a floating-point number, and two floating-point numbers
    /// are equal when the same text stands for them.
    pub fn same_as(&self, other: &Number) -> (r: bool)
        ensures
            r == (self@ == other@),
    {
        match (self, other) {
            (Number::PosInt(a), Number::PosInt(b)) => *a == *b,
            (Number::NegInt(a), Number::NegInt(b)) => *a == *b,
            (Number::Float(a), Number::Float(b)) => same_text(a.as_str(), b.as_str()),
            _ => false,
        }
    }

    /// A copy of the number.
    pub fn duplicate(&self) -> (r: Number)
        ensures
            r@ == self@,
    {
        match self {
            Number::PosInt(n) => Number::PosInt(*n),
            Number::NegInt(n) => Number::NegInt(*n),
            Number::Float(s) => Number::Float(s.clone()),
        }
    }
}

/// A value of a configuration document. A mapping keeps its entries in the
/// order of the document; its keys are texts.
#[derive(Debug)]
pub enum Node {
    Null,
    Bool(bool),
    Number(Number),
    String(String),
    Sequence(Vec<Node>),
    Mapping(Vec<(String, Node)>),
}

/// The mathematical model of a [`Node`].
pub enum Tree {
    Null,
    Bool(bool),
    Number(NumberModel),
    Text(Seq<char>),
    List(Seq<Tree>),
    Dict(Seq<(Seq<char>, Tree)>),
}

/// The keys of a mapping's entries, in order.
pub open spec fn dict_keys(entries: Seq<(Seq<char>, Tree)>) -> Seq<Seq<char>> {
    Seq::new(entries.len(), |i: int| entries[i].0)
}

/// The position of the first entry under `key`, if there is one.
pub open spec fn key_position(entries: Seq<(Seq<char>, Tree)>, key: Seq<char>) -> Option<int> {
    dict_keys(entries).index_of_first(key)
}

/// The value of the first entry under `key`, if there is one.
pub open spec fn dict_get(entries: Seq<(Seq<char>, Tree)>, key: Seq<char>) -> Option<Tree> {
    match key_position(entries, key) {
        Some(i) => Some(entries[i].1),
        None => None,
    }
}

/// No key occurs twice.
pub open spec fn unique_keys(entries: Seq<(Seq<char>, Tree)>) -> bool {
    dict_keys(entries).no_duplicates()
}

/// What `key_position` is: the least index that holds the key.
pub proof fn lemma_key_position(entries: Seq<(Seq<char>, Tree)>, key: Seq<char>)
    ensures
        match key_position(entries, key) {
            Some(i) => {
                &&& 0 <= i < entries.len()
                &&& entries[i].0 == key
                &&& forall|j: int| 0 <= j < i ==> entries[j].0 != key
            },
            None => forall|j: int| 0 <= j < entries.len() ==> entries[j].0 != key,
        },
{
    let keys = dict_keys(entries);
    keys.index_of_first_ensures(key);
    match keys.index_of_first(key) {
        Some(i) => {
            assert forall|j: int| 0 <= j < i implies entries[j].0 != key by {
                assert(keys[j] != key);
            }
        },
        None => {
            assert forall|j: int| 0 <= j < entries.len() implies entries[j].0 != key by {
                assert(keys[j] == entries[j].0);
            }
        },
    }
}

/// An index that holds the key, with no earlier one, is the key's position.
pub proof fn lemma_key_position_is(entries: Seq<(Seq<char>, Tree)>, key: Seq<char>, i: int)
    requires
        0 <= i < entries.len(),
        entries[i].0 == key,
        forall|j: int| 0 <= j < i ==> entries[j].0 != key,
    ensures
        key_position(entries, key) == Some(i),
{
    lemma_key_position(entries, key);
    assert(dict_keys(entries)[i] == key);
}

/// A key that no entry holds has no position.
pub proof fn lemma_key_position_none(entries: Seq<(Seq<char>, Tree)>, key: Seq<char>)
    requires
        forall|j: int| 0 <= j < entries.len() ==> entries[j].0 != key,
    ensures
        key_position(entries, key) is None,
{
    lemma_key_position(entries, key);
}

impl Tree {
    /// Equality of two values as documents see it: scalars compare without
    /// coercion, sequences element by element, and mappings entry by entry
    /// whatever the order of their entries.
    pub open spec fn same(self, other: Tree) -> bool
        decreases self,
    {
        match (self, other) {
            (Tree::Null, Tree::Null) => true,
            (Tree::Bool(a), Tree::Bool(b)) => a == b,
            (Tree::Number(a), Tree::Number(b)) => a == b,
            (Tree::Text(a), Tree::Text(b)) => a == b,
            (Tree::List(a), Tree::List(b)) => {
                &&& a.len() == b.len()
                &&& forall|i: int| 0 <= i < a.len() ==> (#[trigger] a[i]).same(b[i])
            },
            (Tree::Dict(a), Tree::Dict(b)) => {
                &&& a.len() == b.len()
                &&& forall|i: int|
                    0 <= i < a.len() ==> match dict_get(b, (#[trigger] a[i]).0) {
                        Some(v) => a[i].1.same(v),
                        None => false,
                    }
            },
            _ => false,
        }
    }
}

/// The model of a value: the same shape, with mathematical sequences in
/// place of vectors and texts.
pub open spec fn tree_of(v: Node) -> Tree
    decreases v,
{
    match v {
        Node::Null => Tree::Null,
        Node::Bool(b) => Tree::Bool(b),
        Node::Number(n) => Tree::Number(n@),
        Node::String(s) => Tree::Text(s@),
        Node::Sequence(items) => Tree::List(
            Seq::new(
                items.len() as nat,
                |i: int| if 0 <= i < items.len() { tree_of(items[i]) } else { Tree::Null },
            ),
        ),
        Node::Mapping(entries) => Tree::Dict(
            Seq::new(
                entries.len() as nat,
                |i: int|
                    if 0 <= i < entries.len() {
                        (entries[i].0@, tree_of(entries[i].1))
                    } else {
                        (Seq::empty(), Tree::Null)
                    },
            ),
        ),
    }
}

impl View for Node {
    type V = Tree;

    open spec fn view(&self) -> Tree {
        tree_of(*self)
    }
}

impl DeepView for Node {
    type V = Tree;

    open spec fn deep_view(&self) -> Tree {
        self@
    }
}

/// The model of a list of values.
pub open spec fn items_view(items: Seq<Node>) -> Seq<Tree> {
    Seq::new(items.len(), |i: int| items[i]@)
}

/// The model of a list of entries.
pub open spec fn entries_view(entries: Seq<(String, Node)>) -> Seq<(Seq<char>, Tree)> {
    Seq::new(entries.len(), |i: int| (entries[i].0@, entries[i].1@))
}

/// The view of a sequence is the list of its items' views.
pub proof fn lemma_view_sequence(items: Vec<Node>)
    ensures
        Node::Sequence(items)@ == Tree::List(items_view(items@)),
{
    assert(Node::Sequence(items)@->List_0 =~= items_view(items@));
}

/// The view of a mapping is the list of its entries' views.
pub proof fn lemma_view_mapping(entries: Vec<(String, Node)>)
    ensures
        Node::Mapping(entries)@ == Tree::Dict(entries_view(entries@)),
{
    assert(Node::Mapping(entries)@->Dict_0 =~= entries_view(entries@));
}

/// Looks a key up in a list of entries: the first entry under it.
pub fn find_entry<'a>(entries: &'a Vec<(String, Node)>, key: &str) -> (r: Option<usize>)
    ensures
        match r {
            Some(i) => key_position(entries_view(entries@), key@) == Some(i as int) && i
                < entries.len(),
            None => key_position(entries_view(entries@), key@) is None,
        },
{
    let mut i: usize = 0;
    while i < entries.len()
        invariant
            i <= entries.len(),
            forall|j: int| 0 <= j < i ==> entries_view(entries@)[j].0 != key@,
        decreases entries.len() - i,
    {
        if same_text(entries[i].0.as_str(), key) {
            proof {
                lemma_key_position_is(entries_view(entries@), key@, i as int);
            }
            return Some(i);
        }
        i += 1;
    }
    proof {
        lemma_key_position_none(entries_view(entries@), key@);
    }
    None
}

impl Node {
    /// Compares two values as documents see them (see [`Tree::same`]).
    #[verifier::loop_isolation(false)]
    pub fn same_as(&self, other: &Node) -> (r: bool)
        ensures
            r == self@.same(other@),
        decreases self,
    {
        match (self, other) {
            (Node::Null, Node::Null) => true,
            (Node::Bool(a), Node::Bool(b)) => *a == *b,
            (Node::Number(a), Node::Number(b)) => a.same_as(b),
            (Node::String(a), Node::String(b)) => same_text(a.as_str(), b.as_str()),
            (Node::Sequence(a), Node::Sequence(b)) => {
                proof {
                    lemma_view_sequence(*a);
                    lemma_view_sequence(*b);
                }
                if a.len() != b.len() {
                    return false;
                }
                let mut i: usize = 0;
                while i < a.len()
                    invariant
                        i <= a.len(),
                        forall|j: int| 0 <= j < i ==> (#[trigger] items_view(a@)[j]).same(
                            items_view(b@)[j],
                        ),
                    decreases a.len() - i,
                {
                    if !a[i].same_as(&b[i]) {
                        assert(!items_view(a@)[i as int].same(items_view(b@)[i as int]));
                        return false;
                    }
                    i += 1;
                }
                true
            },
            (Node::Mapping(a), Node::Mapping(b)) => {
                proof {
                    lemma_view_mapping(*a);
                    lemma_view_mapping(*b);
                }
                if a.len() != b.len() {
                    return false;
                }
                let ghost av = entries_view(a@);
                let ghost bv = entries_view(b@);
                let mut i: usize = 0;
                while i < a.len()
                    invariant
                        i <= a.len(),
                        forall|j: int|
                            0 <= j < i ==> match dict_get(bv, (#[trigger] av[j]).0) {
                                Some(v) => av[j].1.same(v),
                                None => false,
                            },
                    decreases a.len() - i,
                {
                    match find_entry(b, a[i].0.as_str()) {
                        Some(j) => {
                            if !a[i].1.same_as(&b[j].1) {
                                assert(dict_get(bv, av[i as int].0) == Some(bv[j as int].1));
                                return false;
                            }
                        },
                        None => {
                            assert(dict_get(bv, av[i as int].0) is None);
                            return false;
                        },
                    }
                    i += 1;
                }
                true
            },
            _ => false,
        }
    }

    /// The flag that the value is, if it is one.
    pub fn as_bool(&self) -> (r: Option<bool>)
        ensures
            r == match self@ {
                Tree::Bool(b) => Some(b),
                _ => None,
            },
    {
        match self {
            Node::Bool(b) => Some(*b),
            _ => None,
        }
    }

    /// The integer that the value is, if it is one that fits.
    pub fn as_i64(&self) -> (r: Option<i64>)
        ensures
            r == match self@ {
                Tree::Number(NumberModel::PosInt(n)) => if n <= i64::MAX {
                    Some(n as i64)
                } else {
                    None
                },
                Tree::Number(NumberModel::NegInt(n)) => Some(n),
                _ => None,
            },
    {
        match self {
            Node::Number(Number::PosInt(n)) => if *n <= 0x7fff_ffff_ffff_ffff {
                Some(*n as i64)
            } else {
                None
            },
            Node::Number(Number::NegInt(n)) => Some(*n),
            _ => None,
        }
    }

    /// The non-negative integer that the value is, if it is one.
    pub fn as_u64(&self) -> (r: Option<u64>)
        ensures
            r == match self@ {
                Tree::Number(NumberModel::PosInt(n)) => Some(n),
                _ => None,
            },
    {
        match self {
            Node::Number(Number::PosInt(n)) => Some(*n),
            _ => None,
        }
    }

    /// The text that the value is, if it is one.
    pub fn as_str(&self) -> (r: Option<&str>)
        ensures
            match r {
                Some(s) => self@ == Tree::Text(s@),
                None => !(self@ is Text),
            },
    {
        match self {
            Node::String(s) => Some(s.as_str()),
            _ => None,
        }
    }

    /// Whether the value is null.
    pub fn is_null(&self) -> (r: bool)
        ensures
            r == (self@ is Null),
    {
        match self {
            Node::Null => true,
            _ => false,
        }
    }

    /// What the value holds under a key, if it is a mapping that holds
    /// something there.
    pub fn get(&self, key: &str) -> (r: Option<&Node>)
        ensures
            r.deep_view() == match self@ {
                Tree::Dict(entries) => dict_get(entries, key@),
                _ => None,
            },
    {
        match self {
            Node::Mapping(entries) => {
                proof {
                    lemma_view_mapping(*entries);
                }
                match find_entry(entries, key) {
                    Some(i) => Some(&entries[i].1),
                    None => None,
                }
            },
            _ => None,
        }
    }

    /// A copy of the value.
    #[verifier::loop_isolation(false)]
    pub fn duplicate(&self) -> (r: Node)
        ensures
            r@ == self@,
        decreases self,
    {
        match self {
            Node::Null => Node::Null,
            Node::Bool(b) => Node::Bool(*b),
            Node::Number(n) => Node::Number(n.duplicate()),
            Node::String(s) => Node::String(s.clone()),
            Node::Sequence(items) => {
                let mut out: Vec<Node> = Vec::new();
                let mut i: usize = 0;
                while i < items.len()
                    invariant
                        i <= items.len(),
                        out.len() == i,
                        forall|j: int| 0 <= j < i ==> out@[j]@ == items@[j]@,
                    decreases items.len() - i,
                {
                    out.push(items[i].duplicate());
                    i += 1;
                }
                proof {
                    lemma_view_sequence(*items);
                    lemma_view_sequence(out);
                    assert(items_view(out@) =~= items_view(items@));
                }
                Node::Sequence(out)
            },
            Node::Mapping(entries) => {
                let mut out: Vec<(String, Node)> = Vec::new();
                let mut i: usize = 0;
                while i < entries.len()
                    invariant
                        i <= entries.len(),
                        out.len() == i,
                        forall|j: int|
                            0 <= j < i ==> out@[j].0@ == entries@[j].0@ && out@[j].1@
                                == entries@[j].1@,
                    decreases entries.len() - i,
                {
                    out.push((entries[i].0.clone(), entries[i].1.duplicate()));
                    i += 1;
                }
                proof {
                    lemma_view_mapping(*entries);
                    lemma_view_mapping(out);
                    assert(entries_view(out@) =~= entries_view(entries@));
                }
                Node::Mapping(out)
            },
        }
    }
}

} // verus!
