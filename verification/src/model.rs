//! The records of a catalog and their mathematical models.

use vstd::prelude::*;

verus! {

/// The elementwise view of a sequence of values.
pub open spec fn views<T: View>(items: Seq<T>) -> Seq<T::V> {
    Seq::new(items.len(), |i: int| items[i]@)
}

/// The views of a sequence with one more item are the views of the sequence
/// with the view of the item.
pub proof fn lemma_views_push<T: View>(items: Seq<T>, item: T)
    ensures
        views(items.push(item)) == views(items).push(item@),
{
    assert(views(items.push(item)) =~= views(items).push(item@));
}

/// The view of an optional string.
pub open spec fn optional_text(text: Option<String>) -> Option<Seq<char>> {
    match text {
        Some(t) => Some(t@),
        None => None,
    }
}

/// A package, identified by its name.
#[derive(Debug, Clone, PartialEq, Eq)]
pub struct Package {
    pub name: String,
}

/// The model of a package: its fields as sequences of characters.
pub ghost struct PackageModel {
    pub name: Seq<char>,
}

impl View for Package {
    type V = PackageModel;

    open spec fn view(&self) -> PackageModel {
        PackageModel { name: self.name@ }
    }
}

/// One version node of a channel's upgrade graph.
#[derive(Debug, Clone, PartialEq, Eq)]
pub struct ChannelEntry {
    pub name: String,
    /// The entry that this one replaces; empty where it replaces none.
    pub replaces: String,
    pub skips: Vec<String>,
    pub skip_range: Option<String>,
}

/// The model of a channel entry: its fields as sequences of characters.
pub ghost struct ChannelEntryModel {
    pub name: Seq<char>,
    pub replaces: Seq<char>,
    pub skips: Seq<Seq<char>>,
    pub skip_range: Option<Seq<char>>,
}

impl View for ChannelEntry {
    type V = ChannelEntryModel;

    open spec fn view(&self) -> ChannelEntryModel {
        ChannelEntryModel {
            name: self.name@,
            replaces: self.replaces@,
            skips: views(self.skips@),
            skip_range: optional_text(self.skip_range),
        }
    }
}

/// A named upgrade path of a package.
#[derive(Debug, Clone, PartialEq, Eq)]
pub struct Channel {
    pub name: String,
    /// The name of the owning package.
    pub package: String,
    pub entries: Vec<ChannelEntry>,
}

/// The model of a channel: its fields as sequences of characters.
pub ghost struct ChannelModel {
    pub name: Seq<char>,
    pub package: Seq<char>,
    pub entries: Seq<ChannelEntryModel>,
}

impl View for Channel {
    type V = ChannelModel;

    open spec fn view(&self) -> ChannelModel {
        ChannelModel { name: self.name@, package: self.package@, entries: views(self.entries@) }
    }
}

/// One installable image of a package.
#[derive(Debug, Clone, PartialEq, Eq)]
pub struct Bundle {
    pub name: String,
    pub image: String,
    /// The name of the owning package.
    pub package: String,
}

/// The model of a bundle: its fields as sequences of characters.
pub ghost struct BundleModel {
    pub name: Seq<char>,
    pub image: Seq<char>,
    pub package: Seq<char>,
}

impl View for Bundle {
    type V = BundleModel;

    open spec fn view(&self) -> BundleModel {
        BundleModel { name: self.name@, image: self.image@, package: self.package@ }
    }
}

/// One decoded document of a catalog.
#[derive(Debug, Clone, PartialEq, Eq)]
pub enum CatalogEntry {
    OlmPackage(Package),
    OpmChannel(Channel),
    OlmBundle(Bundle),
}

/// The model of a catalog entry.
pub ghost enum EntryModel {
    Package(PackageModel),
    Channel(ChannelModel),
    Bundle(BundleModel),
}

impl View for CatalogEntry {
    type V = EntryModel;

    open spec fn view(&self) -> EntryModel {
        match self {
            CatalogEntry::OlmPackage(package) => EntryModel::Package(package@),
            CatalogEntry::OpmChannel(channel) => EntryModel::Channel(channel@),
            CatalogEntry::OlmBundle(bundle) => EntryModel::Bundle(bundle@),
        }
    }
}

/// What a query is about. `list` takes the plural forms, `show` the singular.
#[derive(Debug, Clone, Copy, PartialEq, Eq)]
pub enum ContentType {
    Packages,
    Channels,
    Bundles,
    Package,
    Channel,
    Bundle,
}

} // verus!
