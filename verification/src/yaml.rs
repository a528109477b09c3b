//! Documents in YAML notation, as a tree of nodes.
use crate::text::same_text;
use vstd::prelude::*;
use yaml_rust::{Yaml, YamlLoader};

verus! {

/// A node of a document.
#[derive(Debug)]
pub enum Node {
    /// A number with a fraction or an exponent, as it was written.
    Real(String),
    /// An integer.
    Integer(i64),
    /// A text.
    Text(String),
    /// A truth value.
    Boolean(bool),
    /// A row of nodes.
    Array(Vec<Node>),
    /// Pairs of a key and a value.
    Hash(Vec<(Node, Node)>),
    /// A reference to another node.
    Alias(usize),
    /// Explicitly nothing.
    Null,
    /// A node that is missing or cannot be used.
    BadValue,
}

/// What a node says.
pub enum Value {
    Real(Seq<char>),
    Integer(i64),
    Text(Seq<char>),
    Boolean(bool),
    Array(Seq<Value>),
    Hash(Seq<(Value, Value)>),
    Alias(usize),
    Null,
    BadValue,
}

impl Node {
    /// What the node says.
    pub open spec fn value(self) -> Value
        decreases self,
    {
        match self {
            Node::Real(text) => Value::Real(text@),
            Node::Integer(number) => Value::Integer(number),
            Node::Text(text) => Value::Text(text@),
            Node::Boolean(flag) => Value::Boolean(flag),
            Node::Array(items) => Value::Array(
                Seq::new(
                    items@.len(),
                    |i: int|
                        if 0 <= i < items@.len() {
                            items@[i].value()
                        } else {
                            arbitrary()
                        },
                ),
            ),
            Node::Hash(pairs) => Value::Hash(
                Seq::new(
                    pairs@.len(),
                    |i: int|
                        if 0 <= i < pairs@.len() {
                            (pairs@[i].0.value(), pairs@[i].1.value())
                        } else {
                            arbitrary()
                        },
                ),
            ),
            Node::Alias(id) => Value::Alias(id),
            Node::Null => Value::Null,
            Node::BadValue => Value::BadValue,
        }
    }
}

/// What a row of nodes says.
pub open spec fn values(nodes: Seq<Node>) -> Seq<Value> {
    Seq::new(nodes.len(), |i: int| nodes[i].value())
}

/// What pairs of nodes say.
pub open spec fn entries(pairs: Seq<(Node, Node)>) -> Seq<(Value, Value)> {
    Seq::new(pairs.len(), |i: int| (pairs[i].0.value(), pairs[i].1.value()))
}

/// What an array says.
pub proof fn array_value(items: Vec<Node>)
    ensures
        Node::Array(items).value() == Value::Array(values(items@)),
{
    assert(Node::Array(items).value()->Array_0 =~= values(items@));
}

/// What a hash says.
pub proof fn hash_value(pairs: Vec<(Node, Node)>)
    ensures
        Node::Hash(pairs).value() == Value::Hash(entries(pairs@)),
{
    assert(Node::Hash(pairs).value()->Hash_0 =~= entries(pairs@));
}

/// The value that belongs to a text as a key. The last one counts if there are
/// several.
pub open spec fn lookup(pairs: Seq<(Value, Value)>, key: Seq<char>) -> Value
    decreases pairs.len(),
{
    if pairs.len() == 0 {
        Value::BadValue
    } else if pairs.last().0 == Value::Text(key) {
        pairs.last().1
    } else {
        lookup(pairs.drop_last(), key)
    }
}

/// The member of a hash with the given key. Everything else has no members.
pub open spec fn member(value: Value, key: Seq<char>) -> Value {
    match value {
        Value::Hash(pairs) => lookup(pairs, key),
        _ => Value::BadValue,
    }
}

/// Finds the member of a hash with the given key.
pub fn find_member<'a>(node: &'a Node, key: &str) -> (r: Option<&'a Node>)
    ensures
        match r {
            Some(found) => member(node.value(), key@) == found.value(),
            None => member(node.value(), key@) == Value::BadValue,
        },
{
    match node {
        Node::Hash(pairs) => {
            proof {
                hash_value(*pairs);
            }
            let ghost all = entries(pairs@);
            let mut n: usize = pairs.len();
            assert(all.take(n as int) =~= all);
            while n > 0
                invariant
                    n <= pairs@.len(),
                    all == entries(pairs@),
                    node.value() == Value::Hash(all),
                    lookup(all, key@) == lookup(all.take(n as int), key@),
                decreases n,
            {
                assert(all.take(n as int).drop_last() =~= all.take(n - 1));
                n = n - 1;
                assert(all.take(n + 1).last() == all[n as int]);
                assert(all[n as int].0 == pairs@[n as int].0.value());
                if let Node::Text(name) = &pairs[n].0 {
                    if same_text(name.as_str(), key) {
                        return Some(&pairs[n].1);
                    }
                }
            }
            None
        },
        _ => None,
    }
}

/// A node of a document as the loader of the `yaml_rust` crate gives it.
#[verifier::external_type_specification]
#[verifier::external_body]
pub struct ExYaml(yaml_rust::Yaml);

/// What a node of the loader says: its kind and what it holds.
pub uninterp spec fn yaml_value(yaml: Yaml) -> Value;

/// The documents that a text in YAML notation holds, in the order in which they
/// stand there, or the message that says where the notation is broken.
pub uninterp spec fn yaml_documents(text: Seq<char>) -> Result<Seq<Value>, Seq<char>>;

/// What nodes of the loader say.
pub open spec fn yaml_values(documents: Seq<Yaml>) -> Seq<Value> {
    Seq::new(documents.len(), |i: int| yaml_value(documents[i]))
}

/// `yaml_rust::YamlLoader::load_from_str`: reads all documents of a text. A
/// scanner error is given as its message. The documents, or the message, are a
/// function of the text alone; what they are for a given text is not stated, nor
/// how deep a text may be nested before the machine's stack runs out.
#[verifier::external_body]
fn load_from_str(text: &str) -> (r: Result<Vec<Yaml>, String>)
    ensures
        match r {
            Ok(documents) => yaml_documents(text@) == Ok::<Seq<Value>, Seq<char>>(
                yaml_values(documents@),
            ),
            Err(message) => yaml_documents(text@) == Err::<Seq<Value>, Seq<char>>(message@),
        },
{
    YamlLoader::load_from_str(text).map_err(|error| error.to_string())
}

/// The node of the library that stands for a node of the loader, a
/// `yaml_rust::Yaml`: the same variant with the same contents. The pairs of a
/// hash come in the order of the loader's own hash, which is the order in which
/// they were inserted.
#[verifier::external_body]
fn node_of(yaml: Yaml) -> (r: Node)
    ensures
        r.value() == yaml_value(yaml),
{
    match yaml {
        Yaml::Real(text) => Node::Real(text),
        Yaml::Integer(number) => Node::Integer(number),
        Yaml::String(text) => Node::Text(text),
        Yaml::Boolean(flag) => Node::Boolean(flag),
        Yaml::Array(items) => Node::Array(items.into_iter().map(node_of).collect()),
        Yaml::Hash(pairs) => Node::Hash(
            pairs.into_iter().map(|(key, value)| (node_of(key), node_of(value))).collect(),
        ),
        Yaml::Alias(id) => Node::Alias(id),
        Yaml::Null => Node::Null,
        Yaml::BadValue => Node::BadValue,
    }
}

/// The last document of a text in YAML notation, or what keeps it from being
/// read: a message, or that there is none.
pub fn last_document(text: &str) -> (r: Result<Option<Node>, String>)
    ensures
        match yaml_documents(text@) {
            Ok(documents) => match r {
                Ok(Some(node)) => documents.len() > 0 && node.value() == documents.last(),
                Ok(None) => documents.len() == 0,
                Err(_) => false,
            },
            Err(message) => r matches Err(text) && text@ == message,
        },
{
    match load_from_str(text) {
        Ok(documents) => {
            let mut documents = documents;
            match documents.pop() {
                Some(yaml) => Ok(Some(node_of(yaml))),
                None => Ok(None),
            }
        },
        Err(message) => Err(message),
    }
}

/// The last pair with a text as its key gives the member of a hash with this key. A
/// hash without such a pair, and everything that is no hash, has no such member.
pub proof fn last_pair_is_the_member(pairs: Seq<(Value, Value)>, key: Seq<char>, at: int)
    requires
        -1 <= at < pairs.len(),
        at >= 0 ==> pairs[at].0 == Value::Text(key),
        forall|i: int| at < i < pairs.len() ==> (#[trigger] pairs[i]).0 != Value::Text(key),
    ensures
        member(Value::Hash(pairs), key) == if at >= 0 {
            pairs[at].1
        } else {
            Value::BadValue
        },
        forall|other: Value| !(other is Hash) ==> #[trigger] member(other, key) == Value::BadValue,
    decreases pairs.len(),
{
    if at < pairs.len() - 1 {
        let front = pairs.drop_last();
        assert(pairs[pairs.len() - 1].0 != Value::Text(key));
        assert forall|i: int| at < i < front.len() implies (#[trigger] front[i]).0 != Value::Text(
            key,
        ) by {
            assert(pairs[i].0 != Value::Text(key));
        }
        last_pair_is_the_member(front, key, at);
    }
}

} // verus!
