//! The text forms of the records: the block of a channel, the lines of a
//! bundle, and the structured dumps of a package and of a bundle.

use crate::model::{
    views, Bundle, BundleModel, Channel, ChannelEntry, ChannelEntryModel, ChannelModel, Package,
    PackageModel,
};
use vstd::prelude::*;
use vstd::string::*;

verus! {

/// The text that the `Debug` form of a string gives: the string in double
/// quotes, with the characters escaped that `str`'s `Debug` escapes.
pub uninterp spec fn debug_repr(text: Seq<char>) -> Seq<char>;

/// `format!` with `{:?}` on a `str`: the `Debug` form of the string.
#[verifier::external_body]
fn debug_text(text: &str) -> (quoted: String)
    ensures
        quoted@ == debug_repr(text@),
{
    format!("{:?}", text)
}

/// The `Debug` forms of the items, with `, ` between them.
pub open spec fn debug_items(items: Seq<Seq<char>>) -> Seq<char>
    decreases items.len(),
{
    if items.len() == 0 {
        Seq::empty()
    } else if items.len() == 1 {
        debug_repr(items[0])
    } else {
        debug_items(items.drop_last()) + ", "@ + debug_repr(items.last())
    }
}

/// The `Debug` form of a list of strings: the items' forms in square
/// brackets.
pub open spec fn debug_list(items: Seq<Seq<char>>) -> Seq<char> {
    "["@ + debug_items(items) + "]"@
}

/// The lines of one channel entry: its name, then `replaces` unless empty,
/// `skips` unless empty, and `skip_range` where there is one.
pub open spec fn entry_text(entry: ChannelEntryModel) -> Seq<char> {
    "\n    - "@ + entry.name + (if entry.replaces.len() > 0 {
        "\n      replaces: "@ + entry.replaces
    } else {
        Seq::empty()
    }) + (if entry.skips.len() > 0 {
        "\n      skips: "@ + debug_list(entry.skips)
    } else {
        Seq::empty()
    }) + (match entry.skip_range {
        Some(range) => "\n      skip_range: "@ + range,
        None => Seq::empty(),
    })
}

/// The lines of the entries, one entry after the other.
pub open spec fn entries_text(entries: Seq<ChannelEntryModel>) -> Seq<char> {
    entries.map_values(|entry: ChannelEntryModel| entry_text(entry)).flatten()
}

/// The block of a channel: its name, its package, and its entries.
pub open spec fn channel_text(channel: ChannelModel) -> Seq<char> {
    "Channel: "@ + channel.name + "\n  Package: "@ + channel.package + "\n  Entries:"@
        + entries_text(channel.entries)
}

/// The three lines of a bundle: its name, its image, and its package.
pub open spec fn bundle_text(bundle: BundleModel) -> Seq<char> {
    "Bundle: "@ + bundle.name + "\n  Image: "@ + bundle.image + "\n  Package: "@ + bundle.package
}

/// The structured dump of a package: the record with its field on a line of
/// its own, the value in its `Debug` form.
pub open spec fn package_dump(package: PackageModel) -> Seq<char> {
    "Package {\n    name: "@ + debug_repr(package.name) + ",\n}"@
}

/// The structured dump of a bundle: the record with each field on a line of
/// its own, the values in their `Debug` forms.
pub open spec fn bundle_dump(bundle: BundleModel) -> Seq<char> {
    "Bundle {\n    name: "@ + debug_repr(bundle.name) + ",\n    image: "@ + debug_repr(
        bundle.image,
    ) + ",\n    package: "@ + debug_repr(bundle.package) + ",\n}"@
}

/// The `Debug` form of a list of strings.
pub fn debug_strings(items: &Vec<String>) -> (text: String)
    ensures
        text@ == debug_list(views(items@)),
{
    let ghost models = views(items@);
    let mut text = String::from_str("[");
    let mut i: usize = 0;
    assert(models.take(0) =~= Seq::<Seq<char>>::empty());
    while i < items.len()
        invariant
            i <= items.len(),
            models == views(items@),
            text@ == "["@ + debug_items(models.take(i as int)),
        decreases items.len() - i,
    {
        proof {
            let next = models.take(i as int + 1);
            assert(next.drop_last() =~= models.take(i as int));
            assert(next.last() == items@[i as int]@);
        }
        if i > 0 {
            text.append(", ");
        }
        let quoted = debug_text(items[i].as_str());
        text.append(quoted.as_str());
        i = i + 1;
        assert(text@ =~= "["@ + debug_items(models.take(i as int)));
    }
    assert(models.take(i as int) =~= models);
    text.append("]");
    text
}

/// Appends the lines of one channel entry.
fn append_entry(text: &mut String, entry: &ChannelEntry)
    ensures
        final(text)@ == old(text)@ + entry_text(entry@),
{
    text.append("\n    - ");
    text.append(entry.name.as_str());
    if !entry.replaces.as_str().is_empty() {
        text.append("\n      replaces: ");
        text.append(entry.replaces.as_str());
    }
    if entry.skips.len() > 0 {
        text.append("\n      skips: ");
        let list = debug_strings(&entry.skips);
        text.append(list.as_str());
    }
    match &entry.skip_range {
        Some(range) => {
            text.append("\n      skip_range: ");
            text.append(range.as_str());
        },
        None => {},
    }
    assert(text@ =~= old(text)@ + entry_text(entry@));
}

impl Channel {
    /// The block of this channel.
    pub fn to_text(&self) -> (text: String)
        ensures
            text@ == channel_text(self@),
    {
        let mut text = String::from_str("Channel: ");
        text.append(self.name.as_str());
        text.append("\n  Package: ");
        text.append(self.package.as_str());
        text.append("\n  Entries:");
        let ghost head = text@;
        let ghost entries = views(self.entries@);
        let ghost lines = entries.map_values(|entry: ChannelEntryModel| entry_text(entry));
        let mut i: usize = 0;
        assert(lines.take(0) =~= Seq::<Seq<char>>::empty());
        while i < self.entries.len()
            invariant
                i <= self.entries.len(),
                entries == views(self.entries@),
                lines == entries.map_values(|entry: ChannelEntryModel| entry_text(entry)),
                text@ == head + lines.take(i as int).flatten(),
            decreases self.entries.len() - i,
        {
            append_entry(&mut text, &self.entries[i]);
            proof {
                assert(lines.take(i as int + 1) =~= lines.take(i as int).push(lines[i as int]));
                lines.take(i as int).lemma_flatten_push(lines[i as int]);
            }
            i = i + 1;
        }
        assert(lines.take(i as int) =~= lines);
        text
    }
}

impl Bundle {
    /// The three lines of this bundle.
    pub fn to_text(&self) -> (text: String)
        ensures
            text@ == bundle_text(self@),
    {
        let mut text = String::from_str("Bundle: ");
        text.append(self.name.as_str());
        text.append("\n  Image: ");
        text.append(self.image.as_str());
        text.append("\n  Package: ");
        text.append(self.package.as_str());
        text
    }

    /// The structured dump of this bundle.
    pub fn dump(&self) -> (text: String)
        ensures
            text@ == bundle_dump(self@),
    {
        let mut text = String::from_str("Bundle {\n    name: ");
        text.append(debug_text(self.name.as_str()).as_str());
        text.append(",\n    image: ");
        text.append(debug_text(self.image.as_str()).as_str());
        text.append(",\n    package: ");
        text.append(debug_text(self.package.as_str()).as_str());
        text.append(",\n}");
        text
    }
}

impl Package {
    /// The structured dump of this package.
    pub fn dump(&self) -> (text: String)
        ensures
            text@ == package_dump(self@),
    {
        let mut text = String::from_str("Package {\n    name: ");
        text.append(debug_text(self.name.as_str()).as_str());
        text.append(",\n}");
        text
    }
}

} // verus!
