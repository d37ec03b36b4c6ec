//! Decoding of a YAML document into a catalog entry: the `schema` field of
//! the document selects the record, whose fields are then read by name.

use crate::model::{
    optional_text, views, Bundle, BundleModel, CatalogEntry, Channel, ChannelEntry,
    ChannelEntryModel, ChannelModel, EntryModel, Package, PackageModel,
};
use crate::yaml::{lemma_mapping_model, lemma_sequence_model, pair_models, Node, NodeModel};
use vstd::prelude::*;
use vstd::string::*;

verus! {

/// The fields that decoding reads.
#[derive(Debug, Clone, Copy, PartialEq, Eq, Structural)]
pub enum Field {
    Schema,
    Name,
    Package,
    Image,
    Entries,
    Replaces,
    Skips,
    SkipRange,
}

/// Why a document decodes into no entry.
#[derive(Debug, Clone, PartialEq, Eq)]
pub enum DecodeError {
    /// The document is not a mapping.
    NotAMapping,
    /// A required field is absent.
    MissingField(Field),
    /// The `schema` field names none of the three records.
    UnknownSchema(String),
    /// A field holds a value of another type than the record asks for.
    TypeMismatch(Field),
}

/// The model of a decoding error.
pub ghost enum DecodeErrorModel {
    NotAMapping,
    MissingField(Field),
    UnknownSchema(Seq<char>),
    TypeMismatch(Field),
}

impl View for DecodeError {
    type V = DecodeErrorModel;

    open spec fn view(&self) -> DecodeErrorModel {
        match self {
            DecodeError::NotAMapping => DecodeErrorModel::NotAMapping,
            DecodeError::MissingField(field) => DecodeErrorModel::MissingField(*field),
            DecodeError::UnknownSchema(schema) => DecodeErrorModel::UnknownSchema(schema@),
            DecodeError::TypeMismatch(field) => DecodeErrorModel::TypeMismatch(*field),
        }
    }
}

/// The key under which a field stands in a document.
pub open spec fn field_key(field: Field) -> Seq<char> {
    match field {
        Field::Schema => "schema"@,
        Field::Name => "name"@,
        Field::Package => "package"@,
        Field::Image => "image"@,
        Field::Entries => "entries"@,
        Field::Replaces => "replaces"@,
        Field::Skips => "skips"@,
        Field::SkipRange => "SkipRange"@,
    }
}

/// The value of the first pair whose key is the text `key`.
pub open spec fn find(pairs: Seq<(NodeModel, NodeModel)>, key: Seq<char>) -> Option<NodeModel>
    decreases pairs.len(),
{
    if pairs.len() == 0 {
        None
    } else if pairs[0].0 == NodeModel::Text(key) {
        Some(pairs[0].1)
    } else {
        find(pairs.skip(1), key)
    }
}

/// A field that must be present and hold text.
pub open spec fn required_text(pairs: Seq<(NodeModel, NodeModel)>, field: Field) -> Result<
    Seq<char>,
    DecodeErrorModel,
> {
    match find(pairs, field_key(field)) {
        None => Err(DecodeErrorModel::MissingField(field)),
        Some(NodeModel::Text(text)) => Ok(text),
        Some(_) => Err(DecodeErrorModel::TypeMismatch(field)),
    }
}

/// A field that holds text where it is present, and stands for the empty
/// text where it is absent.
pub open spec fn defaulted_text(pairs: Seq<(NodeModel, NodeModel)>, field: Field) -> Result<
    Seq<char>,
    DecodeErrorModel,
> {
    match find(pairs, field_key(field)) {
        None => Ok(Seq::empty()),
        Some(NodeModel::Text(text)) => Ok(text),
        Some(_) => Err(DecodeErrorModel::TypeMismatch(field)),
    }
}

/// A field that may be absent or null, and else holds text.
pub open spec fn optional_text_field(pairs: Seq<(NodeModel, NodeModel)>, field: Field) -> Result<
    Option<Seq<char>>,
    DecodeErrorModel,
> {
    match find(pairs, field_key(field)) {
        None => Ok(None),
        Some(NodeModel::Null) => Ok(None),
        Some(NodeModel::Text(text)) => Ok(Some(text)),
        Some(_) => Err(DecodeErrorModel::TypeMismatch(field)),
    }
}

/// Whether every item is a text.
pub open spec fn all_text(items: Seq<NodeModel>) -> bool {
    forall|i: int| 0 <= i < items.len() ==> #[trigger] items[i] is Text
}

/// The texts of a sequence of text nodes.
pub open spec fn texts(items: Seq<NodeModel>) -> Seq<Seq<char>> {
    Seq::new(items.len(), |i: int| items[i]->Text_0)
}

/// A field that holds a sequence of texts where it is present, and stands
/// for the empty sequence where it is absent.
pub open spec fn defaulted_texts(pairs: Seq<(NodeModel, NodeModel)>, field: Field) -> Result<
    Seq<Seq<char>>,
    DecodeErrorModel,
> {
    match find(pairs, field_key(field)) {
        None => Ok(Seq::empty()),
        Some(NodeModel::Sequence(items)) => if all_text(items) {
            Ok(texts(items))
        } else {
            Err(DecodeErrorModel::TypeMismatch(field))
        },
        Some(_) => Err(DecodeErrorModel::TypeMismatch(field)),
    }
}

/// One entry of a channel: a mapping with a `name`, and optionally
/// `replaces`, `skips` and `SkipRange`. The first field at fault, in this
/// order, gives the error.
pub open spec fn decode_channel_entry(node: NodeModel) -> Result<
    ChannelEntryModel,
    DecodeErrorModel,
> {
    match node {
        NodeModel::Mapping(pairs) => match required_text(pairs, Field::Name) {
            Err(e) => Err(e),
            Ok(name) => match defaulted_text(pairs, Field::Replaces) {
                Err(e) => Err(e),
                Ok(replaces) => match defaulted_texts(pairs, Field::Skips) {
                    Err(e) => Err(e),
                    Ok(skips) => match optional_text_field(pairs, Field::SkipRange) {
                        Err(e) => Err(e),
                        Ok(skip_range) => Ok(
                            ChannelEntryModel { name, replaces, skips, skip_range },
                        ),
                    },
                },
            },
        },
        _ => Err(DecodeErrorModel::TypeMismatch(Field::Entries)),
    }
}

/// The entries of a channel: every item decodes, or the first that does not
/// gives the error.
pub open spec fn decode_channel_entries(items: Seq<NodeModel>) -> Result<
    Seq<ChannelEntryModel>,
    DecodeErrorModel,
>
    decreases items.len(),
{
    if items.len() == 0 {
        Ok(Seq::empty())
    } else {
        match decode_channel_entries(items.drop_last()) {
            Err(e) => Err(e),
            Ok(entries) => match decode_channel_entry(items.last()) {
                Err(e) => Err(e),
                Ok(entry) => Ok(entries.push(entry)),
            },
        }
    }
}

/// A package: a `name`.
pub open spec fn decode_package(pairs: Seq<(NodeModel, NodeModel)>) -> Result<
    EntryModel,
    DecodeErrorModel,
> {
    match required_text(pairs, Field::Name) {
        Err(e) => Err(e),
        Ok(name) => Ok(EntryModel::Package(PackageModel { name })),
    }
}

/// A channel: a `name`, the owning `package`, and the `entries`, a sequence
/// of channel entries.
pub open spec fn decode_channel(pairs: Seq<(NodeModel, NodeModel)>) -> Result<
    EntryModel,
    DecodeErrorModel,
> {
    match required_text(pairs, Field::Name) {
        Err(e) => Err(e),
        Ok(name) => match required_text(pairs, Field::Package) {
            Err(e) => Err(e),
            Ok(package) => match find(pairs, field_key(Field::Entries)) {
                None => Err(DecodeErrorModel::MissingField(Field::Entries)),
                Some(NodeModel::Sequence(items)) => match decode_channel_entries(items) {
                    Err(e) => Err(e),
                    Ok(entries) => Ok(EntryModel::Channel(ChannelModel { name, package, entries })),
                },
                Some(_) => Err(DecodeErrorModel::TypeMismatch(Field::Entries)),
            },
        },
    }
}

/// A bundle: a `name`, an `image`, and the owning `package`.
pub open spec fn decode_bundle(pairs: Seq<(NodeModel, NodeModel)>) -> Result<
    EntryModel,
    DecodeErrorModel,
> {
    match required_text(pairs, Field::Name) {
        Err(e) => Err(e),
        Ok(name) => match required_text(pairs, Field::Image) {
            Err(e) => Err(e),
            Ok(image) => match required_text(pairs, Field::Package) {
                Err(e) => Err(e),
                Ok(package) => Ok(EntryModel::Bundle(BundleModel { name, image, package })),
            },
        },
    }
}

/// The entry that a document decodes into. The document must be a mapping
/// whose `schema` field is one of `olm.package`, `olm.channel` and
/// `olm.bundle`; the record's required fields must be present, and every
/// field that the record reads must hold a value of its type. Other fields
/// are passed over. The first field at fault, in the order of the record,
/// gives the error.
pub open spec fn decode_entry(document: NodeModel) -> Result<EntryModel, DecodeErrorModel> {
    match document {
        NodeModel::Mapping(pairs) => match required_text(pairs, Field::Schema) {
            Err(e) => Err(e),
            Ok(schema) => if schema == "olm.package"@ {
                decode_package(pairs)
            } else if schema == "olm.channel"@ {
                decode_channel(pairs)
            } else if schema == "olm.bundle"@ {
                decode_bundle(pairs)
            } else {
                Err(DecodeErrorModel::UnknownSchema(schema))
            },
        },
        _ => Err(DecodeErrorModel::NotAMapping),
    }
}

/// The key of a field.
fn key_of(field: Field) -> (key: String)
    ensures
        key@ == field_key(field),
{
    match field {
        Field::Schema => String::from_str("schema"),
        Field::Name => String::from_str("name"),
        Field::Package => String::from_str("package"),
        Field::Image => String::from_str("image"),
        Field::Entries => String::from_str("entries"),
        Field::Replaces => String::from_str("replaces"),
        Field::Skips => String::from_str("skips"),
        Field::SkipRange => String::from_str("SkipRange"),
    }
}

/// Looks a key up among the pairs of a mapping.
fn find_value<'a>(pairs: &'a Vec<(Node, Node)>, key: &String) -> (found: Option<&'a Node>)
    ensures
        match found {
            Some(node) => find(pair_models(pairs@), key@) == Some(node@),
            None => find(pair_models(pairs@), key@) is None,
        },
{
    let ghost models = pair_models(pairs@);
    let mut i: usize = 0;
    assert(models.skip(0) =~= models);
    while i < pairs.len()
        invariant
            i <= pairs.len(),
            models == pair_models(pairs@),
            find(models, key@) == find(models.skip(i as int), key@),
        decreases pairs.len() - i,
    {
        let hit = match &pairs[i].0 {
            Node::Text(text) => *text == *key,
            _ => false,
        };
        proof {
            let rest = models.skip(i as int);
            assert(rest[0] == models[i as int]);
            assert(rest.skip(1) =~= models.skip(i as int + 1));
            assert(models[i as int].0 == pairs@[i as int].0@);
            assert(hit == (pairs@[i as int].0@ == NodeModel::Text(key@)));
        }
        if hit {
            return Some(&pairs[i].1);
        }
        i = i + 1;
    }
    None
}

/// Reads a field that must be present and hold text.
fn read_required_text(pairs: &Vec<(Node, Node)>, field: Field) -> (read: Result<
    String,
    DecodeError,
>)
    ensures
        match read {
            Ok(text) => required_text(pair_models(pairs@), field) == Ok::<
                Seq<char>,
                DecodeErrorModel,
            >(text@),
            Err(e) => required_text(pair_models(pairs@), field) == Err::<
                Seq<char>,
                DecodeErrorModel,
            >(e@),
        },
{
    let key = key_of(field);
    match find_value(pairs, &key) {
        None => Err(DecodeError::MissingField(field)),
        Some(Node::Text(text)) => Ok(text.clone()),
        Some(_) => Err(DecodeError::TypeMismatch(field)),
    }
}

/// Reads a field that holds text where it is present.
fn read_defaulted_text(pairs: &Vec<(Node, Node)>, field: Field) -> (read: Result<
    String,
    DecodeError,
>)
    ensures
        match read {
            Ok(text) => defaulted_text(pair_models(pairs@), field) == Ok::<
                Seq<char>,
                DecodeErrorModel,
            >(text@),
            Err(e) => defaulted_text(pair_models(pairs@), field) == Err::<
                Seq<char>,
                DecodeErrorModel,
            >(e@),
        },
{
    let key = key_of(field);
    match find_value(pairs, &key) {
        None => Ok(String::new()),
        Some(Node::Text(text)) => Ok(text.clone()),
        Some(_) => Err(DecodeError::TypeMismatch(field)),
    }
}

/// Reads a field that may be absent or null, and else holds text.
fn read_optional_text(pairs: &Vec<(Node, Node)>, field: Field) -> (read: Result<
    Option<String>,
    DecodeError,
>)
    ensures
        match read {
            Ok(text) => optional_text_field(pair_models(pairs@), field) == Ok::<
                Option<Seq<char>>,
                DecodeErrorModel,
            >(optional_text(text)),
            Err(e) => optional_text_field(pair_models(pairs@), field) == Err::<
                Option<Seq<char>>,
                DecodeErrorModel,
            >(e@),
        },
{
    let key = key_of(field);
    match find_value(pairs, &key) {
        None => Ok(None),
        Some(Node::Null) => Ok(None),
        Some(Node::Text(text)) => Ok(Some(text.clone())),
        Some(_) => Err(DecodeError::TypeMismatch(field)),
    }
}

/// Reads a field that holds a sequence of texts where it is present.
fn read_defaulted_texts(pairs: &Vec<(Node, Node)>, field: Field) -> (read: Result<
    Vec<String>,
    DecodeError,
>)
    ensures
        match read {
            Ok(list) => defaulted_texts(pair_models(pairs@), field) == Ok::<
                Seq<Seq<char>>,
                DecodeErrorModel,
            >(views(list@)),
            Err(e) => defaulted_texts(pair_models(pairs@), field) == Err::<
                Seq<Seq<char>>,
                DecodeErrorModel,
            >(e@),
        },
{
    let key = key_of(field);
    match find_value(pairs, &key) {
        None => {
            let list: Vec<String> = Vec::new();
            assert(views(list@) =~= Seq::<Seq<char>>::empty());
            Ok(list)
        },
        Some(Node::Sequence(items)) => {
            proof {
                lemma_sequence_model(*items);
            }
            let ghost models = views(items@);
            let mut list: Vec<String> = Vec::new();
            let mut i: usize = 0;
            while i < items.len()
                invariant
                    i <= items.len(),
                    models == views(items@),
                    find(pair_models(pairs@), field_key(field)) == Some(
                        NodeModel::Sequence(models),
                    ),
                    list@.len() == i,
                    forall|j: int| 0 <= j < i ==> #[trigger] models[j] is Text,
                    forall|j: int| 0 <= j < i ==> (#[trigger] list@[j])@ == models[j]->Text_0,
                decreases items.len() - i,
            {
                assert(models[i as int] == items@[i as int]@);
                match &items[i] {
                    Node::Text(text) => {
                        list.push(text.clone());
                    },
                    _ => {
                        assert(!all_text(models));
                        return Err(DecodeError::TypeMismatch(field));
                    },
                }
                i = i + 1;
            }
            assert(all_text(models));
            assert(views(list@) =~= texts(models));
            Ok(list)
        },
        Some(_) => Err(DecodeError::TypeMismatch(field)),
    }
}

/// The model of what decoding a channel entry gave.
pub open spec fn channel_entry_result(decoded: Result<ChannelEntry, DecodeError>) -> Result<
    ChannelEntryModel,
    DecodeErrorModel,
> {
    match decoded {
        Ok(entry) => Ok(entry@),
        Err(e) => Err(e@),
    }
}

/// Decodes one entry of a channel.
fn decode_one_channel_entry(node: &Node) -> (decoded: Result<ChannelEntry, DecodeError>)
    ensures
        channel_entry_result(decoded) == decode_channel_entry(node@),
{
    match node {
        Node::Mapping(pairs) => {
            proof {
                lemma_mapping_model(*pairs);
            }
            let name = match read_required_text(pairs, Field::Name) {
                Ok(name) => name,
                Err(e) => {
                    return Err(e);
                },
            };
            let replaces = match read_defaulted_text(pairs, Field::Replaces) {
                Ok(replaces) => replaces,
                Err(e) => {
                    return Err(e);
                },
            };
            let skips = match read_defaulted_texts(pairs, Field::Skips) {
                Ok(skips) => skips,
                Err(e) => {
                    return Err(e);
                },
            };
            let skip_range = match read_optional_text(pairs, Field::SkipRange) {
                Ok(skip_range) => skip_range,
                Err(e) => {
                    return Err(e);
                },
            };
            Ok(ChannelEntry { name, replaces, skips, skip_range })
        },
        _ => Err(DecodeError::TypeMismatch(Field::Entries)),
    }
}

/// An error among the first items of a channel's entries is the error of
/// the whole.
proof fn lemma_entries_error_persists(items: Seq<NodeModel>, n: int)
    requires
        0 <= n <= items.len(),
        decode_channel_entries(items.take(n)) is Err,
    ensures
        decode_channel_entries(items) == decode_channel_entries(items.take(n)),
    decreases items.len() - n,
{
    if n == items.len() {
        assert(items.take(n) =~= items);
    } else {
        assert(items.drop_last().take(n) =~= items.take(n));
        lemma_entries_error_persists(items.drop_last(), n);
    }
}

/// Decodes the entries of a channel.
fn decode_entries(items: &Vec<Node>) -> (decoded: Result<Vec<ChannelEntry>, DecodeError>)
    ensures
        match decoded {
            Ok(entries) => decode_channel_entries(views(items@)) == Ok::<
                Seq<ChannelEntryModel>,
                DecodeErrorModel,
            >(views(entries@)),
            Err(e) => decode_channel_entries(views(items@)) == Err::<
                Seq<ChannelEntryModel>,
                DecodeErrorModel,
            >(e@),
        },
{
    let ghost models = views(items@);
    let mut entries: Vec<ChannelEntry> = Vec::new();
    let mut i: usize = 0;
    assert(views(entries@) =~= Seq::<ChannelEntryModel>::empty());
    while i < items.len()
        invariant
            i <= items.len(),
            models == views(items@),
            decode_channel_entries(models.take(i as int)) == Ok::<
                Seq<ChannelEntryModel>,
                DecodeErrorModel,
            >(views(entries@)),
        decreases items.len() - i,
    {
        let ghost before = views(entries@);
        let decoded = decode_one_channel_entry(&items[i]);
        proof {
            let next = models.take(i as int + 1);
            assert(next.drop_last() =~= models.take(i as int));
            assert(next.last() == items@[i as int]@);
        }
        match decoded {
            Ok(entry) => {
                entries.push(entry);
                assert(views(entries@) =~= before.push(entry@));
            },
            Err(e) => {
                proof {
                    lemma_entries_error_persists(models, i as int + 1);
                }
                return Err(e);
            },
        }
        i = i + 1;
    }
    assert(models.take(i as int) =~= models);
    Ok(entries)
}

/// The model of what decoding a document gave.
pub open spec fn decoded_model(decoded: Result<CatalogEntry, DecodeError>) -> Result<
    EntryModel,
    DecodeErrorModel,
> {
    match decoded {
        Ok(entry) => Ok(entry@),
        Err(e) => Err(e@),
    }
}

fn decode_package_record(pairs: &Vec<(Node, Node)>) -> (decoded: Result<
    CatalogEntry,
    DecodeError,
>)
    ensures
        decoded_model(decoded) == decode_package(pair_models(pairs@)),
{
    match read_required_text(pairs, Field::Name) {
        Ok(name) => Ok(CatalogEntry::OlmPackage(Package { name })),
        Err(e) => Err(e),
    }
}

fn decode_channel_record(pairs: &Vec<(Node, Node)>) -> (decoded: Result<
    CatalogEntry,
    DecodeError,
>)
    ensures
        decoded_model(decoded) == decode_channel(pair_models(pairs@)),
{
    let name = match read_required_text(pairs, Field::Name) {
        Ok(name) => name,
        Err(e) => {
            return Err(e);
        },
    };
    let package = match read_required_text(pairs, Field::Package) {
        Ok(package) => package,
        Err(e) => {
            return Err(e);
        },
    };
    let key = key_of(Field::Entries);
    match find_value(pairs, &key) {
        None => Err(DecodeError::MissingField(Field::Entries)),
        Some(Node::Sequence(items)) => {
            proof {
                lemma_sequence_model(*items);
            }
            match decode_entries(items) {
                Ok(entries) => Ok(CatalogEntry::OpmChannel(Channel { name, package, entries })),
                Err(e) => Err(e),
            }
        },
        Some(_) => Err(DecodeError::TypeMismatch(Field::Entries)),
    }
}

fn decode_bundle_record(pairs: &Vec<(Node, Node)>) -> (decoded: Result<
    CatalogEntry,
    DecodeError,
>)
    ensures
        decoded_model(decoded) == decode_bundle(pair_models(pairs@)),
{
    let name = match read_required_text(pairs, Field::Name) {
        Ok(name) => name,
        Err(e) => {
            return Err(e);
        },
    };
    let image = match read_required_text(pairs, Field::Image) {
        Ok(image) => image,
        Err(e) => {
            return Err(e);
        },
    };
    match read_required_text(pairs, Field::Package) {
        Ok(package) => Ok(CatalogEntry::OlmBundle(Bundle { name, image, package })),
        Err(e) => Err(e),
    }
}

/// Decodes a document into the entry that it describes.
pub fn decode_document(document: &Node) -> (decoded: Result<CatalogEntry, DecodeError>)
    ensures
        decoded_model(decoded) == decode_entry(document@),
{
    match document {
        Node::Mapping(pairs) => {
            proof {
                lemma_mapping_model(*pairs);
            }
            let schema = match read_required_text(pairs, Field::Schema) {
                Ok(schema) => schema,
                Err(e) => {
                    return Err(e);
                },
            };
            if schema == String::from_str("olm.package") {
                decode_package_record(pairs)
            } else if schema == String::from_str("olm.channel") {
                decode_channel_record(pairs)
            } else if schema == String::from_str("olm.bundle") {
                decode_bundle_record(pairs)
            } else {
                Err(DecodeError::UnknownSchema(schema))
            }
        },
        _ => Err(DecodeError::NotAMapping),
    }
}

/// What is said of a document that decodes into no entry.
pub open spec fn error_message(error: DecodeErrorModel) -> Seq<char> {
    match error {
        DecodeErrorModel::NotAMapping => "invalid type: expected a mapping"@,
        DecodeErrorModel::MissingField(field) => "missing field `"@ + field_key(field) + "`"@,
        DecodeErrorModel::UnknownSchema(schema) => "unknown variant `"@ + schema
            + "`, expected one of `olm.package`, `olm.channel`, `olm.bundle`"@,
        DecodeErrorModel::TypeMismatch(field) => "invalid type for field `"@ + field_key(field)
            + "`"@,
    }
}

impl DecodeError {
    /// What is said of a document that failed with this error.
    pub fn message(&self) -> (text: String)
        ensures
            text@ == error_message(self@),
    {
        match self {
            DecodeError::NotAMapping => String::from_str("invalid type: expected a mapping"),
            DecodeError::MissingField(field) => {
                let mut text = String::from_str("missing field `");
                text.append(key_of(*field).as_str());
                text.append("`");
                text
            },
            DecodeError::UnknownSchema(schema) => {
                let mut text = String::from_str("unknown variant `");
                text.append(schema.as_str());
                text.append("`, expected one of `olm.package`, `olm.channel`, `olm.bundle`");
                text
            },
            DecodeError::TypeMismatch(field) => {
                let mut text = String::from_str("invalid type for field `");
                text.append(key_of(*field).as_str());
                text.append("`");
                text
            },
        }
    }
}

} // verus!
