//! A tree of plain data, as a document of a data format holds it: the shape
//! in which a game state or a word list is handed to and taken from a
//! serialiser.

use vstd::prelude::*;

verus! {

/// Mathematical model of a [`Node`].
pub enum NodeModel {
    Null,
    Bool(bool),
    Number(int),
    Text(Seq<char>),
    List(Seq<NodeModel>),
    Record(Seq<(Seq<char>, NodeModel)>),
}

/// A value of a document: nothing, a truth value, a whole number, a text, a
/// list of values, or a record of named values.
#[derive(Debug, PartialEq)]
pub enum Node {
    Null,
    Bool(bool),
    Number(i128),
    Text(String),
    List(Vec<Node>),
    Record(Vec<(String, Node)>),
}

/// The model of a node: texts by their characters, lists and records
/// position by position.
pub open spec fn node_model(node: Node) -> NodeModel
    decreases node,
{
    match node {
        Node::Null => NodeModel::Null,
        Node::Bool(b) => NodeModel::Bool(b),
        Node::Number(n) => NodeModel::Number(n as int),
        Node::Text(t) => NodeModel::Text(t@),
        Node::List(items) => NodeModel::List(
            Seq::new(
                items@.len(),
                |i: int|
                    if 0 <= i < items@.len() {
                        node_model(items@[i])
                    } else {
                        NodeModel::Null
                    },
            ),
        ),
        Node::Record(fields) => NodeModel::Record(
            Seq::new(
                fields@.len(),
                |i: int|
                    if 0 <= i < fields@.len() {
                        (fields@[i].0@, node_model(fields@[i].1))
                    } else {
                        (Seq::<char>::empty(), NodeModel::Null)
                    },
            ),
        ),
    }
}

impl View for Node {
    type V = NodeModel;

    open spec fn view(&self) -> NodeModel {
        node_model(*self)
    }
}

/// The models of a sequence of nodes, position by position.
pub open spec fn nodes_model(items: Seq<Node>) -> Seq<NodeModel> {
    Seq::new(items.len(), |i: int| items[i]@)
}

/// The models of the fields of a record, position by position.
pub open spec fn fields_model(fields: Seq<(String, Node)>) -> Seq<(Seq<char>, NodeModel)> {
    Seq::new(fields.len(), |i: int| (fields[i].0@, fields[i].1@))
}

/// The model of a list is the list of the models of its items.
pub proof fn lemma_list_model(items: Vec<Node>)
    ensures
        Node::List(items)@ == NodeModel::List(nodes_model(items@)),
{
    assert(Node::List(items)@->List_0 =~= nodes_model(items@));
}

/// The model of a record is the record of the models of its fields.
pub proof fn lemma_record_model(fields: Vec<(String, Node)>)
    ensures
        Node::Record(fields)@ == NodeModel::Record(fields_model(fields@)),
{
    assert(Node::Record(fields)@->Record_0 =~= fields_model(fields@));
}

/// The value of the first field named `key`, if there is one.
pub open spec fn field(fields: Seq<(Seq<char>, NodeModel)>, key: Seq<char>) -> Option<NodeModel>
    decreases fields.len(),
{
    if fields.len() == 0 {
        None
    } else if fields[0].0 == key {
        Some(fields[0].1)
    } else {
        field(fields.skip(1), key)
    }
}

/// The field at `at` is the one that a lookup of its name finds, where no
/// earlier field has that name.
pub proof fn lemma_field_found(fields: Seq<(Seq<char>, NodeModel)>, key: Seq<char>, at: int)
    requires
        0 <= at < fields.len(),
        fields[at].0 == key,
        forall|j: int| 0 <= j < at ==> (#[trigger] fields[j]).0 != key,
    ensures
        field(fields, key) == Some(fields[at].1),
    decreases at,
{
    if at > 0 {
        let rest = fields.skip(1);
        assert(fields[0].0 != key);
        assert forall|j: int| 0 <= j < at - 1 implies (#[trigger] rest[j]).0 != key by {
            assert(rest[j] == fields[j + 1]);
        }
        assert(rest[at - 1] == fields[at]);
        lemma_field_found(rest, key, at - 1);
    }
}

/// A lookup finds nothing where no field has the name.
pub proof fn lemma_field_absent(fields: Seq<(Seq<char>, NodeModel)>, key: Seq<char>)
    requires
        forall|j: int| 0 <= j < fields.len() ==> (#[trigger] fields[j]).0 != key,
    ensures
        field(fields, key) is None,
    decreases fields.len(),
{
    if fields.len() > 0 {
        let rest = fields.skip(1);
        assert(fields[0].0 != key);
        assert forall|j: int| 0 <= j < rest.len() implies (#[trigger] rest[j]).0 != key by {
            assert(rest[j] == fields[j + 1]);
        }
        lemma_field_absent(rest, key);
    }
}

/// Looks up the first field named `key`.
pub fn find_field<'a>(fields: &'a Vec<(String, Node)>, key: &String) -> (r: Option<&'a Node>)
    ensures
        match r {
            Some(node) => field(fields_model(fields@), key@) == Some(node@),
            None => field(fields_model(fields@), key@) is None,
        },
{
    let ghost model = fields_model(fields@);
    let mut i: usize = 0;
    while i < fields.len()
        invariant
            i <= fields.len(),
            model == fields_model(fields@),
            forall|j: int| 0 <= j < i ==> (#[trigger] model[j]).0 != key@,
        decreases fields.len() - i,
    {
        assert(model[i as int] == (fields[i as int].0@, fields[i as int].1@));
        if fields[i].0 == *key {
            proof {
                lemma_field_found(model, key@, i as int);
            }
            return Some(&fields[i].1);
        }
        i += 1;
    }
    proof {
        lemma_field_absent(model, key@);
    }
    None
}

} // verus!
