use olm_catalog::decode::{decode_document, DecodeError, Field};
use olm_catalog::model::{Bundle, CatalogEntry, Channel, ChannelEntry, Package};
use olm_catalog::yaml::Node;

fn text(s: &str) -> Node {
    Node::Text(s.to_string())
}

fn mapping(pairs: Vec<(&str, Node)>) -> Node {
    Node::Mapping(pairs.into_iter().map(|(k, v)| (text(k), v)).collect())
}

#[test]
fn package_decodes_from_schema_and_name() {
    let document = mapping(vec![("schema", text("olm.package")), ("name", text("etcd"))]);
    assert_eq!(
        decode_document(&document),
        Ok(CatalogEntry::OlmPackage(Package { name: "etcd".to_string() }))
    );
}

#[test]
fn bundle_decodes_whatever_the_order_of_its_fields() {
    let document = mapping(vec![
        ("image", text("quay.io/etcd:v1")),
        ("package", text("etcd")),
        ("name", text("etcd.v1")),
        ("schema", text("olm.bundle")),
    ]);
    assert_eq!(
        decode_document(&document),
        Ok(CatalogEntry::OlmBundle(Bundle {
            name: "etcd.v1".to_string(),
            image: "quay.io/etcd:v1".to_string(),
            package: "etcd".to_string(),
        }))
    );
}

#[test]
fn channel_decodes_with_all_fields_of_an_entry() {
    let document = mapping(vec![
        ("schema", text("olm.channel")),
        ("name", text("stable")),
        ("package", text("etcd")),
        (
            "entries",
            Node::Sequence(vec![
                mapping(vec![("name", text("etcd.v1"))]),
                mapping(vec![
                    ("name", text("etcd.v2")),
                    ("replaces", text("etcd.v1")),
                    ("skips", Node::Sequence(vec![text("etcd.v1.1"), text("etcd.v1.2")])),
                    ("SkipRange", text(">=1.0.0 <2.0.0")),
                ]),
                mapping(vec![("name", text("etcd.v3")), ("SkipRange", Node::Null)]),
            ]),
        ),
    ]);
    assert_eq!(
        decode_document(&document),
        Ok(CatalogEntry::OpmChannel(Channel {
            name: "stable".to_string(),
            package: "etcd".to_string(),
            entries: vec![
                ChannelEntry {
                    name: "etcd.v1".to_string(),
                    replaces: String::new(),
                    skips: vec![],
                    skip_range: None,
                },
                ChannelEntry {
                    name: "etcd.v2".to_string(),
                    replaces: "etcd.v1".to_string(),
                    skips: vec!["etcd.v1.1".to_string(), "etcd.v1.2".to_string()],
                    skip_range: Some(">=1.0.0 <2.0.0".to_string()),
                },
                ChannelEntry {
                    name: "etcd.v3".to_string(),
                    replaces: String::new(),
                    skips: vec![],
                    skip_range: None,
                },
            ],
        }))
    );
}

#[test]
fn unread_fields_are_passed_over() {
    let document = mapping(vec![
        ("schema", text("olm.package")),
        ("name", text("etcd")),
        ("description", Node::Sequence(vec![Node::Bool(true)])),
    ]);
    assert_eq!(
        decode_document(&document),
        Ok(CatalogEntry::OlmPackage(Package { name: "etcd".to_string() }))
    );
}

#[test]
fn a_document_that_is_no_mapping_is_rejected() {
    assert_eq!(decode_document(&Node::Null), Err(DecodeError::NotAMapping));
    assert_eq!(decode_document(&text("olm.package")), Err(DecodeError::NotAMapping));
    assert_eq!(
        decode_document(&Node::Sequence(vec![text("olm.package"), text("etcd")])),
        Err(DecodeError::NotAMapping)
    );
}

#[test]
fn a_document_without_schema_is_rejected() {
    let document = mapping(vec![("name", text("etcd"))]);
    assert_eq!(decode_document(&document), Err(DecodeError::MissingField(Field::Schema)));
}

#[test]
fn a_schema_that_is_no_text_is_rejected() {
    let document = mapping(vec![("schema", Node::Number("1".to_string())), ("name", text("x"))]);
    assert_eq!(decode_document(&document), Err(DecodeError::TypeMismatch(Field::Schema)));
}

#[test]
fn an_unknown_schema_is_rejected() {
    let document = mapping(vec![("schema", text("olm.unknown")), ("name", text("etcd"))]);
    assert_eq!(
        decode_document(&document),
        Err(DecodeError::UnknownSchema("olm.unknown".to_string()))
    );
}

#[test]
fn a_missing_required_field_is_rejected() {
    let package = mapping(vec![("schema", text("olm.package"))]);
    assert_eq!(decode_document(&package), Err(DecodeError::MissingField(Field::Name)));
    let channel = mapping(vec![
        ("schema", text("olm.channel")),
        ("name", text("stable")),
        ("package", text("etcd")),
    ]);
    assert_eq!(decode_document(&channel), Err(DecodeError::MissingField(Field::Entries)));
    let bundle = mapping(vec![
        ("schema", text("olm.bundle")),
        ("name", text("etcd.v1")),
        ("image", text("quay.io/etcd:v1")),
    ]);
    assert_eq!(decode_document(&bundle), Err(DecodeError::MissingField(Field::Package)));
}

#[test]
fn a_field_of_another_type_is_rejected() {
    let package = mapping(vec![
        ("schema", text("olm.package")),
        ("name", Node::Number("123".to_string())),
    ]);
    assert_eq!(decode_document(&package), Err(DecodeError::TypeMismatch(Field::Name)));
    let channel = mapping(vec![
        ("schema", text("olm.channel")),
        ("name", text("stable")),
        ("package", text("etcd")),
        ("entries", text("etcd.v1")),
    ]);
    assert_eq!(decode_document(&channel), Err(DecodeError::TypeMismatch(Field::Entries)));
}

#[test]
fn an_entry_at_fault_rejects_the_channel() {
    let channel = |entry: Node| {
        mapping(vec![
            ("schema", text("olm.channel")),
            ("name", text("stable")),
            ("package", text("etcd")),
            ("entries", Node::Sequence(vec![mapping(vec![("name", text("ok"))]), entry])),
        ])
    };
    assert_eq!(
        decode_document(&channel(text("etcd.v1"))),
        Err(DecodeError::TypeMismatch(Field::Entries))
    );
    assert_eq!(
        decode_document(&channel(mapping(vec![("replaces", text("x"))]))),
        Err(DecodeError::MissingField(Field::Name))
    );
    assert_eq!(
        decode_document(&channel(mapping(vec![("name", text("a")), ("replaces", Node::Null)]))),
        Err(DecodeError::TypeMismatch(Field::Replaces))
    );
    assert_eq!(
        decode_document(&channel(mapping(vec![
            ("name", text("a")),
            ("skips", Node::Sequence(vec![text("b"), Node::Bool(false)])),
        ]))),
        Err(DecodeError::TypeMismatch(Field::Skips))
    );
    assert_eq!(
        decode_document(&channel(mapping(vec![
            ("name", text("a")),
            ("SkipRange", Node::Sequence(vec![])),
        ]))),
        Err(DecodeError::TypeMismatch(Field::SkipRange))
    );
}

#[test]
fn the_first_of_two_equal_keys_is_read() {
    let document = Node::Mapping(vec![
        (text("schema"), text("olm.package")),
        (text("name"), text("first")),
        (text("name"), text("second")),
    ]);
    assert_eq!(
        decode_document(&document),
        Ok(CatalogEntry::OlmPackage(Package { name: "first".to_string() }))
    );
}

#[test]
fn error_messages_name_the_field_and_the_schema() {
    assert_eq!(DecodeError::NotAMapping.message(), "invalid type: expected a mapping");
    assert_eq!(DecodeError::MissingField(Field::Image).message(), "missing field `image`");
    assert_eq!(
        DecodeError::MissingField(Field::SkipRange).message(),
        "missing field `SkipRange`"
    );
    assert_eq!(
        DecodeError::TypeMismatch(Field::Entries).message(),
        "invalid type for field `entries`"
    );
    assert_eq!(
        DecodeError::UnknownSchema("olm.other".to_string()).message(),
        "unknown variant `olm.other`, expected one of `olm.package`, `olm.channel`, `olm.bundle`"
    );
}
