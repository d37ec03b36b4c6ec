use olm_catalog::catalog::Catalog;
use olm_catalog::model::{Bundle, CatalogEntry, Channel, ChannelEntry, ContentType, Package};
use olm_catalog::query::{list_handler, show_handler};
use olm_catalog::render::debug_strings;

fn lines(items: &[&str]) -> Vec<String> {
    items.iter().map(|s| s.to_string()).collect()
}

fn sample() -> Catalog {
    Catalog::from_entries(vec![
        CatalogEntry::OlmPackage(Package { name: "etcd".to_string() }),
        CatalogEntry::OpmChannel(Channel {
            name: "stable".to_string(),
            package: "etcd".to_string(),
            entries: vec![
                ChannelEntry {
                    name: "etcd.v1".to_string(),
                    replaces: String::new(),
                    skips: vec![],
                    skip_range: None,
                },
                ChannelEntry {
                    name: "etcd.v2".to_string(),
                    replaces: "etcd.v1".to_string(),
                    skips: vec!["etcd.v1.1".to_string(), "etcd \"v1.2\"".to_string()],
                    skip_range: Some(">=1.0.0 <2.0.0".to_string()),
                },
            ],
        }),
        CatalogEntry::OlmPackage(Package { name: "prometheus".to_string() }),
        CatalogEntry::OpmChannel(Channel {
            name: "beta".to_string(),
            package: "prometheus".to_string(),
            entries: vec![],
        }),
        CatalogEntry::OpmChannel(Channel {
            name: "alpha".to_string(),
            package: "etcd".to_string(),
            entries: vec![],
        }),
        CatalogEntry::OlmBundle(Bundle {
            name: "etcd.v1".to_string(),
            image: "quay.io/etcd:v1".to_string(),
            package: "etcd".to_string(),
        }),
        CatalogEntry::OlmBundle(Bundle {
            name: "prometheus.v1".to_string(),
            image: "quay.io/prometheus:v1".to_string(),
            package: "prometheus".to_string(),
        }),
        CatalogEntry::OlmBundle(Bundle {
            name: "etcd.v2".to_string(),
            image: "quay.io/etcd:v2".to_string(),
            package: "etcd".to_string(),
        }),
    ])
}

#[test]
fn list_packages_names_each_package_once() {
    assert_eq!(
        list_handler(ContentType::Packages, &sample()),
        lines(&["Packages:", "- etcd", "- prometheus"])
    );
}

#[test]
fn list_channels_goes_group_by_group() {
    assert_eq!(
        list_handler(ContentType::Channels, &sample()),
        lines(&["Channels:", "- stable", "- alpha", "- beta"])
    );
}

#[test]
fn list_bundles_goes_group_by_group() {
    assert_eq!(
        list_handler(ContentType::Bundles, &sample()),
        lines(&["Bundles:", "- etcd.v1", "- etcd.v2", "- prometheus.v1"])
    );
}

#[test]
fn list_of_an_empty_catalog_is_the_header() {
    let empty = Catalog::new();
    assert_eq!(list_handler(ContentType::Packages, &empty), lines(&["Packages:"]));
    assert_eq!(list_handler(ContentType::Channels, &empty), lines(&["Channels:"]));
    assert_eq!(list_handler(ContentType::Bundles, &empty), lines(&["Bundles:"]));
}

#[test]
fn list_of_a_singular_content_type_is_unsupported() {
    for content_type in [ContentType::Package, ContentType::Channel, ContentType::Bundle] {
        assert_eq!(list_handler(content_type, &sample()), lines(&["Unsupported content type"]));
    }
}

#[test]
fn show_of_a_plural_content_type_is_unsupported() {
    for content_type in [ContentType::Packages, ContentType::Channels, ContentType::Bundles] {
        assert_eq!(
            show_handler(content_type, "etcd", &sample()),
            lines(&["Unsupported content type"])
        );
    }
}

#[test]
fn show_package_dumps_the_record() {
    assert_eq!(
        show_handler(ContentType::Package, "etcd", &sample()),
        lines(&["Package {\n    name: \"etcd\",\n}"])
    );
}

#[test]
fn show_package_of_an_unknown_name_is_silent() {
    assert!(show_handler(ContentType::Package, "absent", &sample()).is_empty());
}

#[test]
fn show_channel_gives_every_channel_of_the_package() {
    assert_eq!(
        show_handler(ContentType::Channel, "etcd", &sample()),
        lines(&[
            "Channel: stable\n  Package: etcd\n  Entries:\n    - etcd.v1\n    - etcd.v2\n      replaces: etcd.v1\n      skips: [\"etcd.v1.1\", \"etcd \\\"v1.2\\\"\"]\n      skip_range: >=1.0.0 <2.0.0",
            "Channel: alpha\n  Package: etcd\n  Entries:",
        ])
    );
}

#[test]
fn show_channel_takes_the_name_for_a_package_name() {
    assert!(show_handler(ContentType::Channel, "stable", &sample()).is_empty());
}

#[test]
fn show_bundle_dumps_every_bundle_of_the_package() {
    assert_eq!(
        show_handler(ContentType::Bundle, "etcd", &sample()),
        lines(&[
            "Bundle {\n    name: \"etcd.v1\",\n    image: \"quay.io/etcd:v1\",\n    package: \"etcd\",\n}",
            "Bundle {\n    name: \"etcd.v2\",\n    image: \"quay.io/etcd:v2\",\n    package: \"etcd\",\n}",
        ])
    );
}

#[test]
fn show_bundle_takes_the_name_for_a_package_name() {
    assert!(show_handler(ContentType::Bundle, "etcd.v1", &sample()).is_empty());
}

#[test]
fn queries_asked_twice_answer_the_same() {
    let catalog = sample();
    for content_type in [
        ContentType::Packages,
        ContentType::Channels,
        ContentType::Bundles,
        ContentType::Package,
        ContentType::Channel,
        ContentType::Bundle,
    ] {
        assert_eq!(list_handler(content_type, &catalog), list_handler(content_type, &catalog));
        assert_eq!(
            show_handler(content_type, "etcd", &catalog),
            show_handler(content_type, "etcd", &catalog)
        );
    }
}

#[test]
fn texts_and_dumps_agree_with_the_standard_forms() {
    let bundle = Bundle {
        name: "etcd.v1".to_string(),
        image: "quay.io/etcd:v1 \"latest\"\n".to_string(),
        package: "etcd\\core".to_string(),
    };
    assert_eq!(bundle.dump(), format!("{:#?}", bundle));
    assert_eq!(
        bundle.to_text(),
        "Bundle: etcd.v1\n  Image: quay.io/etcd:v1 \"latest\"\n\n  Package: etcd\\core"
    );
    let package = Package { name: "tab\there".to_string() };
    assert_eq!(package.dump(), format!("{:#?}", package));
    assert_eq!(package.dump(), "Package {\n    name: \"tab\\there\",\n}");
    let skips = vec!["a".to_string(), "b\"c".to_string(), String::new()];
    assert_eq!(debug_strings(&skips), format!("{:?}", skips));
    assert_eq!(debug_strings(&skips), "[\"a\", \"b\\\"c\", \"\"]");
    assert_eq!(debug_strings(&vec![]), "[]");
}

#[test]
fn channel_text_leaves_out_what_an_entry_lacks() {
    let channel = Channel {
        name: "stable".to_string(),
        package: "etcd".to_string(),
        entries: vec![
            ChannelEntry {
                name: "a".to_string(),
                replaces: String::new(),
                skips: vec!["x".to_string()],
                skip_range: None,
            },
            ChannelEntry {
                name: "b".to_string(),
                replaces: "a".to_string(),
                skips: vec![],
                skip_range: Some(String::new()),
            },
        ],
    };
    assert_eq!(
        channel.to_text(),
        "Channel: stable\n  Package: etcd\n  Entries:\n    - a\n      skips: [\"x\"]\n    - b\n      replaces: a\n      skip_range: "
    );
}
