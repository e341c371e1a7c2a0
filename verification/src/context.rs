//! The context: the document that templates are rendered against and that
//! captured responses are merged into.
use crate::text::{same_text, texts};
use serde_json::Value as JsonData;
use serde_yaml::Value as YamlData;
use vstd::prelude::*;

verus! {

#[verifier::external_type_specification]
#[verifier::external_body]
pub struct ExYaml(serde_yaml::Value);

#[verifier::external_type_specification]
#[verifier::external_body]
pub struct ExJson(serde_json::Value);

/// A YAML or JSON value.
#[derive(Debug)]
pub enum Data {
    Null,
    Bool(bool),
    /// A number, as it is written.
    Number(String),
    String(String),
    Sequence(Vec<Data>),
    /// The entries of a mapping, in their order. A key may be any value.
    Mapping(Vec<(Data, Data)>),
}

/// A value as a tree of texts.
pub enum Node {
    Null,
    Bool(bool),
    Number(Seq<char>),
    Text(Seq<char>),
    List(Seq<Node>),
    Dict(Seq<(Node, Node)>),
}

/// The tree of texts that a value stands for.
pub open spec fn node_of(d: Data) -> Node
    decreases d,
{
    match d {
        Data::Null => Node::Null,
        Data::Bool(b) => Node::Bool(b),
        Data::Number(n) => Node::Number(n@),
        Data::String(s) => Node::Text(s@),
        Data::Sequence(items) => Node::List(
            Seq::new(
                items@.len(),
                |i: int|
                    if 0 <= i < items@.len() {
                        node_of(items@[i])
                    } else {
                        Node::Null
                    },
            ),
        ),
        Data::Mapping(entries) => Node::Dict(
            Seq::new(
                entries@.len(),
                |i: int|
                    if 0 <= i < entries@.len() {
                        (node_of(entries@[i].0), node_of(entries@[i].1))
                    } else {
                        (Node::Null, Node::Null)
                    },
            ),
        ),
    }
}

impl View for Data {
    type V = Node;

    open spec fn view(&self) -> Node {
        node_of(*self)
    }
}

impl Clone for Data {
    #[verifier::loop_isolation(false)]
    fn clone(&self) -> (copy: Data)
        ensures
            copy@ == self@,
        decreases self,
    {
        match self {
            Data::Null => Data::Null,
            Data::Bool(b) => Data::Bool(*b),
            Data::Number(n) => Data::Number(n.clone()),
            Data::String(s) => Data::String(s.clone()),
            Data::Sequence(items) => {
                let mut copies: Vec<Data> = Vec::new();
                let mut i: usize = 0;
                while i < items.len()
                    invariant
                        i <= items.len(),
                        copies@.len() == i,
                        forall|k: int| 0 <= k < i ==> copies@[k]@ == items@[k]@,
                    decreases items.len() - i,
                {
                    proof {
                        vstd::std_specs::vec::axiom_vec_index_decreases(*items, i as int);
                    }
                    copies.push(items[i].clone());
                    i += 1;
                }
                let copy = Data::Sequence(copies);
                assert(copy@->List_0 =~= self@->List_0);
                copy
            },
            Data::Mapping(entries) => {
                let mut copies: Vec<(Data, Data)> = Vec::new();
                let mut i: usize = 0;
                while i < entries.len()
                    invariant
                        i <= entries.len(),
                        copies@.len() == i,
                        forall|k: int|
                            0 <= k < i ==> copies@[k].0@ == entries@[k].0@ && copies@[k].1@
                                == entries@[k].1@,
                    decreases entries.len() - i,
                {
                    proof {
                        vstd::std_specs::vec::axiom_vec_index_decreases(*entries, i as int);
                    }
                    copies.push((entries[i].0.clone(), entries[i].1.clone()));
                    i += 1;
                }
                let copy = Data::Mapping(copies);
                assert(copy@->Dict_0 =~= self@->Dict_0);
                copy
            },
        }
    }
}

/// The view of a mapping holds the views of its entries.
pub proof fn lemma_mapping_view(d: Data)
    requires
        d is Mapping,
    ensures
        d@ is Dict,
        d@->Dict_0.len() == d->Mapping_0@.len(),
        forall|k: int|
            0 <= k < d->Mapping_0@.len() ==> d@->Dict_0[k] == (
                (#[trigger] d->Mapping_0@[k]).0@,
                d->Mapping_0@[k].1@,
            ),
{
    reveal_with_fuel(node_of, 2);
}

/// The position of the first entry at or after `at` whose key is the text
/// `key`, or `-1`.
pub open spec fn key_position(entries: Seq<(Node, Node)>, key: Seq<char>, at: int) -> int
    decreases entries.len() - at,
{
    if at < 0 || at >= entries.len() {
        -1
    } else if entries[at].0 == Node::Text(key) {
        at
    } else {
        key_position(entries, key, at + 1)
    }
}

/// What a mapping holds under the text `key`. Anything but a mapping holds
/// nothing.
pub open spec fn lookup(root: Node, key: Seq<char>) -> Option<Node> {
    match root {
        Node::Dict(entries) => {
            let at = key_position(entries, key, 0);
            if at >= 0 {
                Some(entries[at].1)
            } else {
                None
            }
        },
        _ => None,
    }
}

/// The mapping `root` with `value` under the text `key`: in the place of
/// what it held under that key, or as a new last entry. Anything but a
/// mapping stays as it is.
pub open spec fn inserted(root: Node, key: Seq<char>, value: Node) -> Node {
    match root {
        Node::Dict(entries) => {
            let at = key_position(entries, key, 0);
            if at >= 0 {
                Node::Dict(entries.update(at, (entries[at].0, value)))
            } else {
                Node::Dict(entries.push((Node::Text(key), value)))
            }
        },
        _ => root,
    }
}

/// The texts among `items`, in their order.
pub open spec fn texts_among(items: Seq<Node>) -> Seq<Seq<char>>
    decreases items.len(),
{
    if items.len() == 0 {
        Seq::empty()
    } else {
        match items.last() {
            Node::Text(t) => texts_among(items.drop_last()).push(t),
            _ => texts_among(items.drop_last()),
        }
    }
}

/// The keys that the context declares as secret: the texts of the sequence
/// that it holds under `__obfuscated__`.
pub open spec fn declared_secrets(root: Node) -> Seq<Seq<char>> {
    match lookup(root, "__obfuscated__"@) {
        Some(Node::List(items)) => texts_among(items),
        _ => Seq::empty(),
    }
}

/// The texts that the context holds under the keys `names`, in the order of
/// the keys. A key under which it holds no text gives nothing.
pub open spec fn texts_under(root: Node, names: Seq<Seq<char>>) -> Seq<Seq<char>>
    decreases names.len(),
{
    if names.len() == 0 {
        Seq::empty()
    } else {
        match lookup(root, names.last()) {
            Some(Node::Text(t)) => texts_under(root, names.drop_last()).push(t),
            _ => texts_under(root, names.drop_last()),
        }
    }
}

/// The secret values of a context: what it holds, as texts, under the keys
/// that it declares as secret.
pub open spec fn secrets_of(root: Node) -> Seq<Seq<char>> {
    texts_under(root, declared_secrets(root))
}

/// The document that `serde_yaml` reads from `text`, or `None` where it
/// takes `text` for no YAML document.
pub uninterp spec fn yaml_document(text: Seq<char>) -> Option<Node>;

/// The value that `serde_json` reads from `text`, or `None` where it takes
/// `text` for no JSON value.
pub uninterp spec fn json_document(text: Seq<char>) -> Option<Node>;

/// Turns a `serde_yaml::Value` into a value of this library, variant by
/// variant; a number becomes its `to_string`, a tagged value the value
/// without its tag.
#[verifier::external_body]
fn value_of_yaml(y: &serde_yaml::Value) -> (v: Data) {
    match y {
        YamlData::Null => Data::Null,
        YamlData::Bool(b) => Data::Bool(*b),
        YamlData::Number(n) => Data::Number(n.to_string()),
        YamlData::String(s) => Data::String(s.clone()),
        YamlData::Sequence(s) => Data::Sequence(s.iter().map(value_of_yaml).collect()),
        YamlData::Mapping(m) => Data::Mapping(
            m.iter().map(|(k, v)| (value_of_yaml(k), value_of_yaml(v))).collect(),
        ),
        YamlData::Tagged(t) => value_of_yaml(&t.value),
    }
}

/// Turns a `serde_json::Value` into a value of this library, variant by
/// variant; a number becomes its `to_string`, the key of an object a string
/// value.
#[verifier::external_body]
pub(crate) fn value_of_json(j: &serde_json::Value) -> (v: Data) {
    match j {
        JsonData::Null => Data::Null,
        JsonData::Bool(b) => Data::Bool(*b),
        JsonData::Number(n) => Data::Number(n.to_string()),
        JsonData::String(s) => Data::String(s.clone()),
        JsonData::Array(a) => Data::Sequence(a.iter().map(value_of_json).collect()),
        JsonData::Object(m) => Data::Mapping(
            m.iter().map(|(k, v)| (Data::String(k.clone()), value_of_json(v))).collect(),
        ),
    }
}

/// `serde_yaml::from_str` for a `serde_yaml::Value`, turned into a value of
/// this library. The outcome depends on the text alone.
#[verifier::external_body]
pub(crate) fn parse_yaml(text: &str) -> (parsed: Result<Data, serde_yaml::Error>)
    ensures
        match parsed {
            Ok(value) => yaml_document(text@) == Some(value@),
            Err(_) => yaml_document(text@).is_none(),
        },
{
    serde_yaml::from_str::<serde_yaml::Value>(text).map(|y| value_of_yaml(&y))
}

/// `serde_json::from_str` for a `serde_json::Value`, turned into a value of
/// this library; `None` where the text is refused. The outcome depends on
/// the text alone.
#[verifier::external_body]
pub(crate) fn parse_json(text: &str) -> (parsed: Option<Data>)
    ensures
        match parsed {
            Some(value) => json_document(text@) == Some(value@),
            None => json_document(text@).is_none(),
        },
{
    serde_json::from_str::<serde_json::Value>(text).ok().map(|j| value_of_json(&j))
}

impl Data {
    /// The string of a string value.
    pub fn as_str(&self) -> (text: Option<&str>)
        ensures
            match text {
                Some(t) => self@ == Node::Text(t@),
                None => !(self@ is Text),
            },
    {
        match self {
            Data::String(s) => Some(s.as_str()),
            _ => None,
        }
    }

    /// The items of a sequence.
    pub fn as_sequence(&self) -> (items: Option<&Vec<Data>>)
        ensures
            match items {
                Some(v) => self@ matches Node::List(list) && list.len() == v@.len() && (forall|
                    i: int,
                | 0 <= i < v@.len() ==> list[i] == #[trigger] v@[i]@),
                None => !(self@ is List),
            },
    {
        match self {
            Data::Sequence(items) => Some(items),
            _ => None,
        }
    }

    /// Whether the value is a mapping.
    pub fn is_mapping(&self) -> (mapping: bool)
        ensures
            mapping == (self@ is Dict),
    {
        match self {
            Data::Mapping(_) => true,
            _ => false,
        }
    }

    /// What a mapping holds under the string `key`.
    #[verifier::loop_isolation(false)]
    pub fn get(&self, key: &str) -> (found: Option<&Data>)
        ensures
            match found {
                Some(value) => lookup(self@, key@) == Some(value@),
                None => lookup(self@, key@).is_none(),
            },
    {
        match self {
            Data::Mapping(entries) => {
                let ghost all = self@->Dict_0;
                proof {
                    lemma_mapping_view(*self);
                }
                let mut i: usize = 0;
                while i < entries.len()
                    invariant
                        i <= entries.len(),
                        all.len() == entries@.len(),
                        forall|k: int|
                            0 <= k < entries@.len() ==> all[k] == (
                                (#[trigger] entries@[k]).0@,
                                entries@[k].1@,
                            ),
                        key_position(all, key@, 0) == key_position(all, key@, i as int),
                    decreases entries.len() - i,
                {
                    if is_key(&entries[i].0, key) {
                        return Some(&entries[i].1);
                    }
                    i += 1;
                }
                None
            },
            _ => None,
        }
    }

    /// Puts `value` under the string `key` of a mapping; anything but a
    /// mapping stays as it is.
    #[verifier::loop_isolation(false)]
    pub fn insert(&mut self, key: &str, value: Data)
        ensures
            final(self)@ == inserted(old(self)@, key@, value@),
    {
        match self {
            Data::Mapping(entries) => {
                let ghost all = old(self)@->Dict_0;
                proof {
                    lemma_mapping_view(*old(self));
                }
                let mut i: usize = 0;
                while i < entries.len()
                    invariant
                        i <= entries.len(),
                        all.len() == entries@.len(),
                        forall|k: int|
                            0 <= k < entries@.len() ==> all[k] == (
                                (#[trigger] entries@[k]).0@,
                                entries@[k].1@,
                            ),
                        key_position(all, key@, 0) == key_position(all, key@, i as int),
                    decreases entries.len() - i,
                {
                    if is_key(&entries[i].0, key) {
                        entries[i].1 = value;
                        proof {
                            lemma_mapping_view(Data::Mapping(*entries));
                            assert(Data::Mapping(*entries)@->Dict_0 =~= all.update(
                                i as int,
                                (all[i as int].0, value@),
                            ));
                        }
                        return ;
                    }
                    i += 1;
                }
                entries.push((Data::String(key.to_owned()), value));
                proof {
                    lemma_mapping_view(Data::Mapping(*entries));
                    assert(Data::Mapping(*entries)@->Dict_0 =~= all.push(
                        (Node::Text(key@), value@),
                    ));
                }
            },
            _ => {},
        }
    }
}

/// Whether `candidate` is the string `key`.
fn is_key(candidate: &Data, key: &str) -> (same: bool)
    ensures
        same == (candidate@ == Node::Text(key@)),
{
    match candidate {
        Data::String(k) => same_text(k.as_str(), key),
        _ => false,
    }
}

/// The secret values of a context: what it holds, as strings, under the
/// keys that its `__obfuscated__` sequence names.
pub fn obfuscated_values(root: &Data) -> (secrets: Vec<String>)
    ensures
        texts(secrets@) == secrets_of(root@),
{
    let mut secrets: Vec<String> = Vec::new();
    let declared = match root.get("__obfuscated__") {
        Some(value) => value,
        None => {
            return secrets;
        },
    };
    let items = match declared.as_sequence() {
        Some(items) => items,
        None => {
            return secrets;
        },
    };
    let ghost list = declared@->List_0;
    let ghost names = texts_among(list);
    let mut keys: Vec<String> = Vec::new();
    let mut i: usize = 0;
    while i < items.len()
        invariant
            i <= items.len(),
            list.len() == items@.len(),
            forall|k: int| 0 <= k < items@.len() ==> list[k] == #[trigger] items@[k]@,
            texts(keys@) == texts_among(list.subrange(0, i as int)),
        decreases items.len() - i,
    {
        proof {
            let longer = list.subrange(0, i + 1);
            assert(longer.drop_last() =~= list.subrange(0, i as int));
        }
        match items[i].as_str() {
            Some(name) => {
                let key = name.to_owned();
                keys.push(key);
            },
            None => {},
        }
        i += 1;
    }
    assert(list.subrange(0, list.len() as int) =~= list);
    let mut j: usize = 0;
    while j < keys.len()
        invariant
            j <= keys.len(),
            texts(keys@) == names,
            texts(secrets@) == texts_under(root@, names.subrange(0, j as int)),
        decreases keys.len() - j,
    {
        proof {
            let longer = names.subrange(0, j + 1);
            assert(longer.drop_last() =~= names.subrange(0, j as int));
        }
        match root.get(keys[j].as_str()) {
            Some(value) => {
                match value.as_str() {
                    Some(secret) => {
                        let secret = secret.to_owned();
                        secrets.push(secret);
                    },
                    None => {},
                }
            },
            None => {},
        }
        j += 1;
    }
    assert(names.subrange(0, names.len() as int) =~= names);
    secrets
}

/// What `key_position` returns is the first entry with that key.
pub proof fn lemma_key_position(entries: Seq<(Node, Node)>, key: Seq<char>, at: int)
    requires
        0 <= at,
    ensures
        key_position(entries, key, at) == -1 || (at <= key_position(entries, key, at)
            < entries.len() && entries[key_position(entries, key, at)].0 == Node::Text(key)),
        forall|k: int|
            at <= k < entries.len() && (key_position(entries, key, at) == -1 || k < key_position(
                entries,
                key,
                at,
            )) ==> entries[k].0 != Node::Text(key),
    decreases entries.len() - at,
{
    if at < entries.len() && entries[at].0 != Node::Text(key) {
        lemma_key_position(entries, key, at + 1);
    }
}

/// What is put into a mapping under a key is what the mapping then holds
/// under that key, and what it holds under any other key stays.
pub proof fn lemma_lookup_inserted(root: Node, key: Seq<char>, value: Node, other: Seq<char>)
    requires
        root is Dict,
    ensures
        lookup(inserted(root, key, value), key) == Some(value),
        other != key ==> lookup(inserted(root, key, value), other) == lookup(root, other),
{
    let entries = root->Dict_0;
    let after = inserted(root, key, value)->Dict_0;
    lemma_key_position(entries, key, 0);
    lemma_key_position(after, key, 0);
    lemma_key_position(entries, other, 0);
    lemma_key_position(after, other, 0);
    let at = key_position(entries, key, 0);
    if at >= 0 {
        assert(after[at].0 == Node::Text(key));
    } else {
        assert(after[entries.len() as int].0 == Node::Text(key));
    }
    if other != key {
        let was = key_position(entries, other, 0);
        if was >= 0 {
            assert(after[was].0 == Node::Text(other));
        } else {
            let now = key_position(after, other, 0);
            if now >= 0 {
                if now < entries.len() {
                }
            }
        }
    }
}

} // verus!
