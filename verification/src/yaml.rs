//! YAML documents as trees of plain values, and the reader that draws them
//! from a stream of text.

use crate::model::views;
use serde::de::IgnoredAny;
use serde::Deserialize;
use serde_yaml::Value;
use vstd::prelude::*;

verus! {

/// A YAML value.
#[derive(Debug, PartialEq, Eq)]
pub enum Node {
    Null,
    Bool(bool),
    /// A number, in the text form that the reader gives it.
    Number(String),
    Text(String),
    Sequence(Vec<Node>),
    /// The pairs of a mapping, in the order of the document.
    Mapping(Vec<(Node, Node)>),
    /// A value under an explicit tag.
    Tagged(String, Box<Node>),
}

/// The model of a YAML value.
pub ghost enum NodeModel {
    Null,
    Bool(bool),
    Number(Seq<char>),
    Text(Seq<char>),
    Sequence(Seq<NodeModel>),
    Mapping(Seq<(NodeModel, NodeModel)>),
    Tagged(Seq<char>, Box<NodeModel>),
}

/// The model of a YAML value: the same tree over sequences of characters.
pub open spec fn node_model(node: Node) -> NodeModel
    decreases node,
{
    match node {
        Node::Null => NodeModel::Null,
        Node::Bool(b) => NodeModel::Bool(b),
        Node::Number(text) => NodeModel::Number(text@),
        Node::Text(text) => NodeModel::Text(text@),
        Node::Sequence(items) => NodeModel::Sequence(
            Seq::new(
                items.len() as nat,
                |i: int|
                    if 0 <= i < items.len() {
                        node_model(items[i])
                    } else {
                        NodeModel::Null
                    },
            ),
        ),
        Node::Mapping(pairs) => NodeModel::Mapping(
            Seq::new(
                pairs.len() as nat,
                |i: int|
                    if 0 <= i < pairs.len() {
                        (node_model(pairs[i].0), node_model(pairs[i].1))
                    } else {
                        (NodeModel::Null, NodeModel::Null)
                    },
            ),
        ),
        Node::Tagged(tag, inner) => NodeModel::Tagged(tag@, Box::new(node_model(*inner))),
    }
}

impl View for Node {
    type V = NodeModel;

    open spec fn view(&self) -> NodeModel {
        node_model(*self)
    }
}

/// The models of the pairs of a mapping.
pub open spec fn pair_models(pairs: Seq<(Node, Node)>) -> Seq<(NodeModel, NodeModel)> {
    Seq::new(pairs.len(), |i: int| (pairs[i].0@, pairs[i].1@))
}

/// The model of a mapping holds the models of its pairs.
pub proof fn lemma_mapping_model(pairs: Vec<(Node, Node)>)
    ensures
        Node::Mapping(pairs)@ == NodeModel::Mapping(pair_models(pairs@)),
{
    assert(Node::Mapping(pairs)@->Mapping_0 =~= pair_models(pairs@));
}

/// The model of a sequence holds the models of its items.
pub proof fn lemma_sequence_model(items: Vec<Node>)
    ensures
        Node::Sequence(items)@ == NodeModel::Sequence(views(items@)),
{
    assert(Node::Sequence(items)@->Sequence_0 =~= views(items@));
}

/// What reading one document gave: its tree, or the reader's message where
/// the document could not be read.
pub open spec fn outcome_model(outcome: Result<Node, String>) -> Result<NodeModel, Seq<char>> {
    match outcome {
        Ok(node) => Ok(node@),
        Err(message) => Err(message@),
    }
}

/// The models of a sequence of outcomes.
pub open spec fn outcome_models(outcomes: Seq<Result<Node, String>>) -> Seq<
    Result<NodeModel, Seq<char>>,
> {
    Seq::new(outcomes.len(), |i: int| outcome_model(outcomes[i]))
}

/// What the reader makes of one document of a stream.
pub ghost enum ReadModel {
    /// The document is read as this value.
    Value(NodeModel),
    /// The document is YAML, but cannot be read as a value: so where a
    /// mapping holds one key twice. The documents behind it can be read.
    Unreadable(Seq<char>),
    /// The text is no YAML from this document on. Nothing behind it can be
    /// read.
    Broken(Seq<char>),
}

/// A read as an outcome: the value, or the reader's message.
pub open spec fn outcome_of(read: ReadModel) -> Result<NodeModel, Seq<char>> {
    match read {
        ReadModel::Value(node) => Ok(node),
        ReadModel::Unreadable(message) => Err(message),
        ReadModel::Broken(message) => Err(message),
    }
}

/// The reads of a stream as outcomes.
pub open spec fn outcomes_of(reads: Seq<ReadModel>) -> Seq<Result<NodeModel, Seq<char>>> {
    Seq::new(reads.len(), |i: int| outcome_of(reads[i]))
}

/// `serde_yaml::Deserializer`: a stream of YAML documents over a text.
/// Nothing is known of what is inside one but what `pending` names.
#[verifier::external_type_specification]
#[verifier::external_body]
pub struct ExDeserializer<'de>(serde_yaml::Deserializer<'de>);

/// `serde_yaml::Value`: a YAML value as the reader builds it. Nothing is
/// known of what is inside one but what `value_tree` names; it is moved into
/// a `Node` where it arises.
#[verifier::external_type_specification]
#[verifier::external_body]
pub struct ExValue(serde_yaml::Value);

/// What `serde_yaml` makes of the documents of a text, in their order, each
/// document read as a `serde_yaml::Value`. A document from which on the text
/// is no YAML is the last.
pub uninterp spec fn yaml_stream(text: Seq<char>) -> Seq<ReadModel>;

/// What a stream has yet to give: the reads of the documents that have not
/// been drawn from it.
pub uninterp spec fn pending(stream: serde_yaml::Deserializer<'_>) -> Seq<ReadModel>;

/// The tree that a `serde_yaml::Value` holds.
pub uninterp spec fn value_tree(value: serde_yaml::Value) -> NodeModel;

/// What trying the next document of a stream gave.
enum Probe<'a> {
    /// The stream holds no further document.
    End,
    /// The text is no YAML from the next document on; the stream is given up.
    Broken(String),
    /// The next document is YAML; the stream behind it.
    Sound(serde_yaml::Deserializer<'a>),
}

/// What reading the next document of a stream gave.
enum Step<'a> {
    /// The stream holds no further document.
    End,
    /// The next document cannot be read as a value; the stream behind it.
    Unreadable(String, serde_yaml::Deserializer<'a>),
    /// The next document, and the stream behind it.
    Document(serde_yaml::Value, serde_yaml::Deserializer<'a>),
}

/// `serde_yaml::Deserializer::from_str`: a stream over `text`, none of whose
/// documents has been drawn.
#[verifier::external_body]
fn open_stream<'a>(text: &'a str) -> (stream: serde_yaml::Deserializer<'a>)
    ensures
        pending(stream) == yaml_stream(text@),
{
    serde_yaml::Deserializer::from_str(text)
}

/// Moves a `serde_yaml::Value` into a `Node`, variant by variant, so that
/// the node is the tree that the value holds. A number and a tag are kept as
/// the text that their `Display` gives.
#[verifier::external_body]
fn node_from_value(value: serde_yaml::Value) -> (node: Node)
    ensures
        node@ == value_tree(value),
{
    match value {
        Value::Null => Node::Null,
        Value::Bool(b) => Node::Bool(b),
        Value::Number(n) => Node::Number(n.to_string()),
        Value::String(s) => Node::Text(s),
        Value::Sequence(items) => Node::Sequence(items.into_iter().map(node_from_value).collect()),
        Value::Mapping(pairs) => Node::Mapping(
            pairs.into_iter().map(|(k, v)| (node_from_value(k), node_from_value(v))).collect(),
        ),
        Value::Tagged(t) => Node::Tagged(t.tag.to_string(), Box::new(node_from_value(t.value))),
    }
}

/// The `next` of `serde_yaml::Deserializer` as an iterator, and
/// `serde::de::IgnoredAny::deserialize` on the document it yields, which
/// fails where the events of the document could not be loaded (the parser
/// failed, or an alias names no anchor) and nowhere else. At the end of the
/// stream nothing is pending. A failure carries the message of the
/// `serde_yaml::Error`; it is the last of the pending reads, and the stream
/// is not handed back, as drawing from it again may never end. Otherwise the
/// first pending read is none such, and the stream behind the document is
/// handed back.
#[verifier::external_body]
fn probe_document<'a>(stream: serde_yaml::Deserializer<'a>) -> (probe: Probe<'a>)
    ensures
        match probe {
            Probe::End => pending(stream).len() == 0,
            Probe::Broken(message) => pending(stream) == seq![ReadModel::Broken(message@)],
            Probe::Sound(rest) => {
                &&& pending(stream).len() > 0
                &&& !(pending(stream)[0] is Broken)
                &&& pending(rest) == pending(stream).skip(1)
            },
        },
{
    let mut stream = stream;
    match stream.next() {
        None => Probe::End,
        Some(document) => match IgnoredAny::deserialize(document) {
            Ok(_) => Probe::Sound(stream),
            Err(error) => Probe::Broken(error.to_string()),
        },
    }
}

/// The `next` of `serde_yaml::Deserializer` as an iterator, and
/// `serde_yaml::Value::deserialize` on the document it yields. The stream
/// must not stand before a document whose events cannot be loaded. The step is
/// the first of the pending reads: none at the end of the stream; the value;
/// or the message of the `serde_yaml::Error` where the document cannot be
/// read as a value. The stream behind the document is handed back.
#[verifier::external_body]
fn next_document<'a>(stream: serde_yaml::Deserializer<'a>) -> (step: Step<'a>)
    requires
        pending(stream).len() > 0 ==> !(pending(stream)[0] is Broken),
    ensures
        match step {
            Step::End => pending(stream).len() == 0,
            Step::Unreadable(message, rest) => {
                &&& pending(stream).len() > 0
                &&& pending(stream)[0] == ReadModel::Unreadable(message@)
                &&& pending(rest) == pending(stream).skip(1)
            },
            Step::Document(value, rest) => {
                &&& pending(stream).len() > 0
                &&& pending(stream)[0] == ReadModel::Value(value_tree(value))
                &&& pending(rest) == pending(stream).skip(1)
            },
        },
{
    let mut stream = stream;
    match stream.next() {
        None => Step::End,
        Some(document) => match Value::deserialize(document) {
            Ok(value) => Step::Document(value, stream),
            Err(error) => Step::Unreadable(error.to_string(), stream),
        },
    }
}

/// Reads the documents of a YAML stream in order. A document that cannot be
/// read as a value gives the reader's message, and the next is taken up.
/// Where the text is no YAML from some document on, that document gives the
/// reader's message and is the last: what follows it cannot be told apart
/// from its remains.
pub fn read_documents(text: &str) -> (documents: Vec<Result<Node, String>>)
    ensures
        outcome_models(documents@) == outcomes_of(yaml_stream(text@)),
{
    let mut documents: Vec<Result<Node, String>> = Vec::new();
    // Two streams over the one text: the first tries each document before
    // the second reads it.
    let mut ahead = open_stream(text);
    let mut stream = open_stream(text);
    loop
        invariant
            pending(ahead) == pending(stream),
            outcome_models(documents@) + outcomes_of(pending(stream)) == outcomes_of(
                yaml_stream(text@),
            ),
        decreases pending(stream).len(),
    {
        let ghost reads = pending(stream);
        let ghost before = outcome_models(documents@);
        match probe_document(ahead) {
            Probe::End => {
                assert(before + outcomes_of(reads) =~= before);
                return documents;
            },
            Probe::Broken(message) => {
                documents.push(Err(message));
                assert(outcome_models(documents@) =~= before + outcomes_of(reads));
                return documents;
            },
            Probe::Sound(rest) => {
                ahead = rest;
            },
        }
        match next_document(stream) {
            Step::End => {
                return documents;
            },
            Step::Unreadable(message, rest) => {
                documents.push(Err(message));
                stream = rest;
            },
            Step::Document(value, rest) => {
                documents.push(Ok(node_from_value(value)));
                stream = rest;
            },
        }
        assert(outcome_models(documents@) + outcomes_of(pending(stream)) =~= before + outcomes_of(
            reads,
        ));
    }
}

} // verus!
