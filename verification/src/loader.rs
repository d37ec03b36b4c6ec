//! Loading a catalog: the documents of a stream are read and decoded one by
//! one, those that decode are grouped, and of each other a diagnostic is kept.

use crate::catalog::{group_entries, Catalog};
use crate::decode::{
    decode_document, decode_entry, error_message, required_text, DecodeErrorModel, Field,
};
use crate::model::{lemma_views_push, views, CatalogEntry, EntryModel};
use crate::yaml::{
    outcome_models, outcomes_of, read_documents, yaml_stream, Node, NodeModel,
};
use vstd::prelude::*;
use vstd::string::*;

verus! {

/// The diagnostic of a document that could not be decoded.
pub open spec fn diagnostic(message: Seq<char>) -> Seq<char> {
    "Failed to deserialize a document: "@ + message
}

/// What becomes of one document: the entry into which it decodes, or the
/// diagnostic of its failure, be it the reader's or the decoder's.
pub open spec fn document_result(outcome: Result<NodeModel, Seq<char>>) -> Result<
    EntryModel,
    Seq<char>,
> {
    match outcome {
        Err(message) => Err(diagnostic(message)),
        Ok(node) => match decode_entry(node) {
            Ok(entry) => Ok(entry),
            Err(error) => Err(diagnostic(error_message(error))),
        },
    }
}

/// The entry of a document that decodes.
pub open spec fn entry_of(outcome: Result<NodeModel, Seq<char>>) -> Option<EntryModel> {
    match document_result(outcome) {
        Ok(entry) => Some(entry),
        Err(_) => None,
    }
}

/// The diagnostic of a document that does not decode.
pub open spec fn diagnostic_of(outcome: Result<NodeModel, Seq<char>>) -> Option<Seq<char>> {
    match document_result(outcome) {
        Ok(_) => None,
        Err(line) => Some(line),
    }
}

/// The entries of the documents that decode, in the order of the documents.
pub open spec fn decoded_entries(outcomes: Seq<Result<NodeModel, Seq<char>>>) -> Seq<EntryModel> {
    outcomes.filter_map(|outcome: Result<NodeModel, Seq<char>>| entry_of(outcome))
}

/// The diagnostics of the documents that do not decode, in the order of the
/// documents.
pub open spec fn diagnostics(outcomes: Seq<Result<NodeModel, Seq<char>>>) -> Seq<Seq<char>> {
    outcomes.filter_map(|outcome: Result<NodeModel, Seq<char>>| diagnostic_of(outcome))
}

/// A document that fails is passed over, and the documents behind it are
/// taken up as if it were not there: the entries are those of the documents
/// before it and behind it, and the diagnostics have one more line, in its
/// place.
pub proof fn lemma_failed_document_passed_over(
    before: Seq<Result<NodeModel, Seq<char>>>,
    failed: Result<NodeModel, Seq<char>>,
    behind: Seq<Result<NodeModel, Seq<char>>>,
)
    requires
        document_result(failed) is Err,
    ensures
        decoded_entries(before.push(failed) + behind) == decoded_entries(before)
            + decoded_entries(behind),
        diagnostics(before.push(failed) + behind) == diagnostics(before).push(
            document_result(failed)->Err_0,
        ) + diagnostics(behind),
    decreases behind.len(),
{
    let all = before.push(failed) + behind;
    if behind.len() == 0 {
        assert(all =~= before.push(failed));
        assert(all.drop_last() =~= before);
        assert(decoded_entries(all) =~= decoded_entries(before) + decoded_entries(behind));
        assert(diagnostics(all) =~= diagnostics(before).push(document_result(failed)->Err_0)
            + diagnostics(behind));
    } else {
        lemma_failed_document_passed_over(before, failed, behind.drop_last());
        assert(all.drop_last() =~= before.push(failed) + behind.drop_last());
        assert(all.last() == behind.last());
        assert(decoded_entries(all) =~= decoded_entries(before) + decoded_entries(behind));
        assert(diagnostics(all) =~= diagnostics(before).push(document_result(failed)->Err_0)
            + diagnostics(behind));
    }
}

/// A document whose `schema` names none of the three records fails, with
/// the error that says so.
pub proof fn lemma_unknown_schema_fails(pairs: Seq<(NodeModel, NodeModel)>, schema: Seq<char>)
    requires
        required_text(pairs, Field::Schema) == Ok::<Seq<char>, DecodeErrorModel>(schema),
        schema != "olm.package"@,
        schema != "olm.channel"@,
        schema != "olm.bundle"@,
    ensures
        decode_entry(NodeModel::Mapping(pairs)) == Err::<EntryModel, DecodeErrorModel>(
            DecodeErrorModel::UnknownSchema(schema),
        ),
        document_result(Ok(NodeModel::Mapping(pairs))) is Err,
{
}

/// What decoding a stream of documents gave.
#[derive(Debug, Clone, PartialEq, Eq)]
pub struct Decoded {
    pub entries: Vec<CatalogEntry>,
    pub diagnostics: Vec<String>,
}

/// A loaded catalog, and the diagnostics of the documents that are not in it.
#[derive(Debug, Clone, PartialEq, Eq)]
pub struct Loaded {
    pub catalog: Catalog,
    pub diagnostics: Vec<String>,
}

/// The diagnostic of a document that could not be decoded.
fn diagnostic_line(message: &str) -> (line: String)
    ensures
        line@ == diagnostic(message@),
{
    let mut line = String::from_str("Failed to deserialize a document: ");
    line.append(message);
    line
}

/// Decodes the documents one by one. A document that fails, in reading or in
/// decoding, is passed over with a diagnostic, and the next is taken up.
pub fn decode_documents(documents: &Vec<Result<Node, String>>) -> (decoded: Decoded)
    ensures
        views(decoded.entries@) == decoded_entries(outcome_models(documents@)),
        views(decoded.diagnostics@) == diagnostics(outcome_models(documents@)),
{
    let ghost outcomes = outcome_models(documents@);
    let mut entries: Vec<CatalogEntry> = Vec::new();
    let mut lines: Vec<String> = Vec::new();
    let mut i: usize = 0;
    assert(outcomes.take(0) =~= Seq::<Result<NodeModel, Seq<char>>>::empty());
    assert(views(entries@) =~= decoded_entries(outcomes.take(0)));
    assert(views(lines@) =~= diagnostics(outcomes.take(0)));
    while i < documents.len()
        invariant
            i <= documents.len(),
            outcomes == outcome_models(documents@),
            views(entries@) == decoded_entries(outcomes.take(i as int)),
            views(lines@) == diagnostics(outcomes.take(i as int)),
        decreases documents.len() - i,
    {
        proof {
            let next = outcomes.take(i as int + 1);
            assert(next.drop_last() =~= outcomes.take(i as int));
            assert(next.last() == outcomes[i as int]);
        }
        let result = match &documents[i] {
            Ok(node) => match decode_document(node) {
                Ok(entry) => Ok(entry),
                Err(error) => Err(diagnostic_line(error.message().as_str())),
            },
            Err(message) => Err(diagnostic_line(message.as_str())),
        };
        match result {
            Ok(entry) => {
                proof {
                    lemma_views_push(entries@, entry);
                }
                entries.push(entry);
            },
            Err(line) => {
                proof {
                    lemma_views_push(lines@, line);
                }
                lines.push(line);
            },
        }
        i = i + 1;
    }
    assert(outcomes.take(i as int) =~= outcomes);
    Decoded { entries, diagnostics: lines }
}

/// Loads the catalog of a stream of documents that has been read: the
/// documents that decode are grouped in their order.
pub fn load_documents(documents: &Vec<Result<Node, String>>) -> (loaded: Loaded)
    ensures
        loaded.catalog@ == group_entries(decoded_entries(outcome_models(documents@))),
        views(loaded.diagnostics@) == diagnostics(outcome_models(documents@)),
{
    let decoded = decode_documents(documents);
    Loaded { catalog: Catalog::from_entries(decoded.entries), diagnostics: decoded.diagnostics }
}

/// Loads the catalog that a YAML stream describes.
pub fn load(text: &str) -> (loaded: Loaded)
    ensures
        loaded.catalog@ == group_entries(decoded_entries(outcomes_of(yaml_stream(text@)))),
        views(loaded.diagnostics@) == diagnostics(outcomes_of(yaml_stream(text@))),
{
    let documents = read_documents(text);
    load_documents(&documents)
}

} // verus!
