use olm_catalog::catalog::{Catalog, Group};
use olm_catalog::model::{Bundle, CatalogEntry, Channel, Package};

fn package(name: &str) -> CatalogEntry {
    CatalogEntry::OlmPackage(Package { name: name.to_string() })
}

fn channel(name: &str, package: &str) -> Channel {
    Channel { name: name.to_string(), package: package.to_string(), entries: vec![] }
}

fn bundle(name: &str, package: &str) -> Bundle {
    Bundle { name: name.to_string(), image: format!("img/{}", name), package: package.to_string() }
}

#[test]
fn new_catalog_is_empty() {
    let catalog = Catalog::new();
    assert!(catalog.packages.is_empty());
    assert!(catalog.channels.is_empty());
    assert!(catalog.bundles.is_empty());
    assert_eq!(catalog.package("etcd"), None);
    assert_eq!(catalog.channels_of("etcd"), None);
    assert_eq!(catalog.bundles_of("etcd"), None);
}

#[test]
fn every_package_is_filed_under_its_name() {
    let catalog = Catalog::from_entries(vec![package("etcd"), package("prometheus")]);
    assert_eq!(catalog.package("etcd"), Some(&Package { name: "etcd".to_string() }));
    assert_eq!(catalog.package("prometheus"), Some(&Package { name: "prometheus".to_string() }));
    assert_eq!(catalog.package("absent"), None);
}

#[test]
fn a_package_of_the_same_name_takes_the_place_of_the_earlier() {
    let catalog = Catalog::from_entries(vec![package("etcd"), package("other"), package("etcd")]);
    assert_eq!(
        catalog.packages,
        vec![Package { name: "etcd".to_string() }, Package { name: "other".to_string() }]
    );
}

#[test]
fn channels_are_filed_once_under_their_package_in_order() {
    let catalog = Catalog::from_entries(vec![
        CatalogEntry::OpmChannel(channel("stable", "etcd")),
        CatalogEntry::OpmChannel(channel("beta", "prometheus")),
        CatalogEntry::OpmChannel(channel("alpha", "etcd")),
    ]);
    assert_eq!(
        catalog.channels,
        vec![
            Group {
                package: "etcd".to_string(),
                members: vec![channel("stable", "etcd"), channel("alpha", "etcd")],
            },
            Group { package: "prometheus".to_string(), members: vec![channel("beta", "prometheus")] },
        ]
    );
    assert_eq!(
        catalog.channels_of("etcd"),
        Some(&vec![channel("stable", "etcd"), channel("alpha", "etcd")])
    );
    assert_eq!(catalog.channels_of("stable"), None);
    assert_eq!(catalog.bundles_of("etcd"), None);
}

#[test]
fn bundles_are_filed_once_under_their_package_in_order() {
    let catalog = Catalog::from_entries(vec![
        CatalogEntry::OlmBundle(bundle("etcd.v1", "etcd")),
        CatalogEntry::OlmBundle(bundle("etcd.v2", "etcd")),
        CatalogEntry::OlmBundle(bundle("etcd.v1", "etcd")),
    ]);
    assert_eq!(
        catalog.bundles_of("etcd"),
        Some(&vec![bundle("etcd.v1", "etcd"), bundle("etcd.v2", "etcd"), bundle("etcd.v1", "etcd")])
    );
    assert_eq!(catalog.channels_of("etcd"), None);
}

#[test]
fn a_member_needs_no_package_entry_of_its_owner() {
    let catalog = Catalog::from_entries(vec![CatalogEntry::OpmChannel(channel("stable", "ghost"))]);
    assert_eq!(catalog.package("ghost"), None);
    assert_eq!(catalog.channels_of("ghost"), Some(&vec![channel("stable", "ghost")]));
}

#[test]
fn insert_files_one_entry() {
    let mut catalog = Catalog::new();
    catalog.insert(package("etcd"));
    catalog.insert(CatalogEntry::OlmBundle(bundle("etcd.v1", "etcd")));
    assert_eq!(
        catalog,
        Catalog::from_entries(vec![package("etcd"), CatalogEntry::OlmBundle(bundle("etcd.v1", "etcd"))])
    );
}
