//! The two queries on a catalog: `list`, which names every entry of a kind,
//! and `show`, which gives the records filed under one name.

use crate::catalog::{
    group_entries, lemma_last_package_wins, members_of, package_named, package_names, Catalog,
    CatalogModel, Group, GroupModel,
};
use crate::model::{
    lemma_views_push, views, BundleModel, ChannelModel, ContentType, EntryModel,
};
use crate::render::{bundle_dump, channel_text, package_dump};
use vstd::prelude::*;
use vstd::string::*;

verus! {

/// The line that names one entry in a list.
pub open spec fn bullet(name: Seq<char>) -> Seq<char> {
    "- "@ + name
}

/// One line for each name.
pub open spec fn bullets(names: Seq<Seq<char>>) -> Seq<Seq<char>> {
    Seq::new(names.len(), |i: int| bullet(names[i]))
}

/// The member lists of the groups.
pub open spec fn member_lists<T>(groups: Seq<GroupModel<T>>) -> Seq<Seq<T>> {
    Seq::new(groups.len(), |i: int| groups[i].members)
}

/// The members of all groups: group after group, and in each group member
/// after member.
pub open spec fn all_members<T>(groups: Seq<GroupModel<T>>) -> Seq<T> {
    member_lists(groups).flatten()
}

/// The names of a sequence of channels.
pub open spec fn channel_names(channels: Seq<ChannelModel>) -> Seq<Seq<char>> {
    Seq::new(channels.len(), |i: int| channels[i].name)
}

/// The names of a sequence of bundles.
pub open spec fn bundle_names(bundles: Seq<BundleModel>) -> Seq<Seq<char>> {
    Seq::new(bundles.len(), |i: int| bundles[i].name)
}

/// The blocks of a sequence of channels.
pub open spec fn channel_texts(channels: Seq<ChannelModel>) -> Seq<Seq<char>> {
    Seq::new(channels.len(), |i: int| channel_text(channels[i]))
}

/// The dumps of a sequence of bundles.
pub open spec fn bundle_dumps(bundles: Seq<BundleModel>) -> Seq<Seq<char>> {
    Seq::new(bundles.len(), |i: int| bundle_dump(bundles[i]))
}

/// The lines of a list. `Packages`, `Channels` and `Bundles` give a header
/// and one line for each entry of the kind: the packages in the order in
/// which their names first came, the channels and the bundles group after
/// group. Any other content type gives the one line that says so.
pub open spec fn list_lines(content_type: ContentType, catalog: CatalogModel) -> Seq<Seq<char>> {
    match content_type {
        ContentType::Packages => seq!["Packages:"@] + bullets(package_names(catalog.packages)),
        ContentType::Channels => seq!["Channels:"@] + bullets(
            channel_names(all_members(catalog.channels)),
        ),
        ContentType::Bundles => seq!["Bundles:"@] + bullets(
            bundle_names(all_members(catalog.bundles)),
        ),
        _ => seq!["Unsupported content type"@],
    }
}

/// The blocks of a show. `Package` gives the dump of the package of that
/// name; `Channel` and `Bundle` take the name for that of a package, and
/// give the block of every channel, or the dump of every bundle, filed under
/// it. A name that leads nowhere gives nothing. Any other content type gives
/// the one line that says so.
pub open spec fn show_blocks(
    content_type: ContentType,
    name: Seq<char>,
    catalog: CatalogModel,
) -> Seq<Seq<char>> {
    match content_type {
        ContentType::Package => match package_named(catalog.packages, name) {
            Some(package) => seq![package_dump(package)],
            None => Seq::empty(),
        },
        ContentType::Channel => match members_of(catalog.channels, name) {
            Some(channels) => channel_texts(channels),
            None => Seq::empty(),
        },
        ContentType::Bundle => match members_of(catalog.bundles, name) {
            Some(bundles) => bundle_dumps(bundles),
            None => Seq::empty(),
        },
        _ => seq!["Unsupported content type"@],
    }
}

/// The line that names one entry in a list.
fn bullet_line(name: &String) -> (line: String)
    ensures
        line@ == bullet(name@),
{
    let mut line = String::from_str("- ");
    line.append(name.as_str());
    line
}

/// The members of all groups, group after group.
fn members_in_order<T: View>(groups: &Vec<Group<T>>) -> (members: Vec<&T>)
    ensures
        views(members@) == all_members(views(groups@)),
{
    let ghost lists = member_lists(views(groups@));
    let mut members: Vec<&T> = Vec::new();
    let mut i: usize = 0;
    assert(lists.take(0) =~= Seq::<Seq<T::V>>::empty());
    assert(views(members@) =~= lists.take(0).flatten());
    while i < groups.len()
        invariant
            i <= groups.len(),
            lists == member_lists(views(groups@)),
            views(members@) == lists.take(i as int).flatten(),
        decreases groups.len() - i,
    {
        let group = &groups[i];
        let ghost in_group = views(group.members@);
        let ghost before = lists.take(i as int).flatten();
        assert(in_group == lists[i as int]);
        let mut j: usize = 0;
        assert(views(members@) =~= before + in_group.take(0));
        while j < group.members.len()
            invariant
                j <= group.members.len(),
                in_group == views(group.members@),
                views(members@) == before + in_group.take(j as int),
            decreases group.members.len() - j,
        {
            let member = &group.members[j];
            proof {
                lemma_views_push(members@, member);
            }
            members.push(member);
            assert(views(members@) =~= before + in_group.take(j as int + 1));
            j = j + 1;
        }
        proof {
            assert(in_group.take(j as int) =~= in_group);
            assert(lists.take(i as int + 1) =~= lists.take(i as int).push(in_group));
            lists.take(i as int).lemma_flatten_push(in_group);
        }
        i = i + 1;
    }
    assert(lists.take(i as int) =~= lists);
    members
}

/// Answers a `list` query with its lines.
pub fn list_handler(content_type: ContentType, catalog: &Catalog) -> (lines: Vec<String>)
    ensures
        views(lines@) == list_lines(content_type, catalog@),
{
    let mut lines: Vec<String> = Vec::new();
    match content_type {
        ContentType::Packages => {
            lines.push(String::from_str("Packages:"));
            let ghost names = package_names(catalog@.packages);
            let mut i: usize = 0;
            assert(views(lines@) =~= seq!["Packages:"@] + bullets(names.take(0)));
            while i < catalog.packages.len()
                invariant
                    i <= catalog.packages.len(),
                    names == package_names(catalog@.packages),
                    views(lines@) == seq!["Packages:"@] + bullets(names.take(i as int)),
                decreases catalog.packages.len() - i,
            {
                let line = bullet_line(&catalog.packages[i].name);
                proof {
                    lemma_views_push(lines@, line);
                }
                lines.push(line);
                assert(views(lines@) =~= seq!["Packages:"@] + bullets(names.take(i as int + 1)));
                i = i + 1;
            }
            assert(names.take(i as int) =~= names);
        },
        ContentType::Channels => {
            lines.push(String::from_str("Channels:"));
            let channels = members_in_order(&catalog.channels);
            let ghost names = channel_names(views(channels@));
            let mut i: usize = 0;
            assert(views(lines@) =~= seq!["Channels:"@] + bullets(names.take(0)));
            while i < channels.len()
                invariant
                    i <= channels.len(),
                    names == channel_names(views(channels@)),
                    views(lines@) == seq!["Channels:"@] + bullets(names.take(i as int)),
                decreases channels.len() - i,
            {
                let line = bullet_line(&channels[i].name);
                proof {
                    lemma_views_push(lines@, line);
                }
                lines.push(line);
                assert(views(lines@) =~= seq!["Channels:"@] + bullets(names.take(i as int + 1)));
                i = i + 1;
            }
            assert(names.take(i as int) =~= names);
        },
        ContentType::Bundles => {
            lines.push(String::from_str("Bundles:"));
            let bundles = members_in_order(&catalog.bundles);
            let ghost names = bundle_names(views(bundles@));
            let mut i: usize = 0;
            assert(views(lines@) =~= seq!["Bundles:"@] + bullets(names.take(0)));
            while i < bundles.len()
                invariant
                    i <= bundles.len(),
                    names == bundle_names(views(bundles@)),
                    views(lines@) == seq!["Bundles:"@] + bullets(names.take(i as int)),
                decreases bundles.len() - i,
            {
                let line = bullet_line(&bundles[i].name);
                proof {
                    lemma_views_push(lines@, line);
                }
                lines.push(line);
                assert(views(lines@) =~= seq!["Bundles:"@] + bullets(names.take(i as int + 1)));
                i = i + 1;
            }
            assert(names.take(i as int) =~= names);
        },
        _ => {
            lines.push(String::from_str("Unsupported content type"));
            assert(views(lines@) =~= seq!["Unsupported content type"@]);
        },
    }
    lines
}

/// Answers a `show` query with its blocks.
pub fn show_handler(content_type: ContentType, name: &str, catalog: &Catalog) -> (blocks: Vec<
    String,
>)
    ensures
        views(blocks@) == show_blocks(content_type, name@, catalog@),
{
    let mut blocks: Vec<String> = Vec::new();
    assert(views(blocks@) =~= Seq::<Seq<char>>::empty());
    match content_type {
        ContentType::Package => {
            match catalog.package(name) {
                Some(package) => {
                    blocks.push(package.dump());
                    assert(views(blocks@) =~= seq![package_dump(package@)]);
                },
                None => {},
            }
        },
        ContentType::Channel => {
            match catalog.channels_of(name) {
                Some(channels) => {
                    let ghost texts = channel_texts(views(channels@));
                    let mut i: usize = 0;
                    assert(views(blocks@) =~= texts.take(0));
                    while i < channels.len()
                        invariant
                            i <= channels.len(),
                            texts == channel_texts(views(channels@)),
                            views(blocks@) == texts.take(i as int),
                        decreases channels.len() - i,
                    {
                        let block = channels[i].to_text();
                        proof {
                            lemma_views_push(blocks@, block);
                        }
                        blocks.push(block);
                        assert(views(blocks@) =~= texts.take(i as int + 1));
                        i = i + 1;
                    }
                    assert(texts.take(i as int) =~= texts);
                },
                None => {},
            }
        },
        ContentType::Bundle => {
            match catalog.bundles_of(name) {
                Some(bundles) => {
                    let ghost dumps = bundle_dumps(views(bundles@));
                    let mut i: usize = 0;
                    assert(views(blocks@) =~= dumps.take(0));
                    while i < bundles.len()
                        invariant
                            i <= bundles.len(),
                            dumps == bundle_dumps(views(bundles@)),
                            views(blocks@) == dumps.take(i as int),
                        decreases bundles.len() - i,
                    {
                        let block = bundles[i].dump();
                        proof {
                            lemma_views_push(blocks@, block);
                        }
                        blocks.push(block);
                        assert(views(blocks@) =~= dumps.take(i as int + 1));
                        i = i + 1;
                    }
                    assert(dumps.take(i as int) =~= dumps);
                },
                None => {},
            }
        },
        _ => {
            blocks.push(String::from_str("Unsupported content type"));
            assert(views(blocks@) =~= seq!["Unsupported content type"@]);
        },
    }
    blocks
}

/// A query on a catalog.
#[derive(Debug, Clone, PartialEq, Eq)]
pub enum Commands {
    /// Names the entries of a kind.
    List { content_type: ContentType },
    /// Gives the records filed under a name.
    Show { content_type: ContentType, name: String },
}

/// The model of a query.
pub ghost enum CommandsModel {
    List { content_type: ContentType },
    Show { content_type: ContentType, name: Seq<char> },
}

impl View for Commands {
    type V = CommandsModel;

    open spec fn view(&self) -> CommandsModel {
        match self {
            Commands::List { content_type } => CommandsModel::List { content_type: *content_type },
            Commands::Show { content_type, name } => CommandsModel::Show {
                content_type: *content_type,
                name: name@,
            },
        }
    }
}

/// What a query puts out: the lines of a list, or the blocks of a show.
pub open spec fn answer(command: CommandsModel, catalog: CatalogModel) -> Seq<Seq<char>> {
    match command {
        CommandsModel::List { content_type } => list_lines(content_type, catalog),
        CommandsModel::Show { content_type, name } => show_blocks(content_type, name, catalog),
    }
}

impl Commands {
    /// Answers this query on a catalog. Each item of the answer is put out
    /// with a line end behind it.
    pub fn run(&self, catalog: &Catalog) -> (output: Vec<String>)
        ensures
            views(output@) == answer(self@, catalog@),
    {
        match self {
            Commands::List { content_type } => list_handler(*content_type, catalog),
            Commands::Show { content_type, name } => show_handler(
                *content_type,
                name.as_str(),
                catalog,
            ),
        }
    }
}

/// A list asked for twice on one catalog is the same both times, character
/// by character.
pub proof fn lemma_list_repeatable(
    content_type: ContentType,
    catalog: Catalog,
    first: Vec<String>,
    second: Vec<String>,
)
    requires
        views(first@) == list_lines(content_type, catalog@),
        views(second@) == list_lines(content_type, catalog@),
    ensures
        views(first@) == views(second@),
{
}

/// A show asked for twice on one catalog is the same both times, character
/// by character.
pub proof fn lemma_show_repeatable(
    content_type: ContentType,
    name: Seq<char>,
    catalog: Catalog,
    first: Vec<String>,
    second: Vec<String>,
)
    requires
        views(first@) == show_blocks(content_type, name, catalog@),
        views(second@) == show_blocks(content_type, name, catalog@),
    ensures
        views(first@) == views(second@),
{
}

/// Of the package entries of one name, a show of that name gives the last:
/// a package entry that no package entry of its name follows is the one
/// package that a show of its name dumps.
pub proof fn lemma_show_last_package(entries: Seq<EntryModel>, i: int)
    requires
        0 <= i < entries.len(),
        entries[i] is Package,
        forall|j: int|
            i < j < entries.len() && entries[j] is Package ==> (#[trigger] entries[j])->Package_0.name
                != entries[i]->Package_0.name,
    ensures
        show_blocks(ContentType::Package, entries[i]->Package_0.name, group_entries(entries))
            == seq![package_dump(entries[i]->Package_0)],
{
    lemma_last_package_wins(entries, i);
}

/// A list of a singular content type is the one line that says so, whatever
/// the catalog holds.
pub proof fn lemma_list_fallback(content_type: ContentType, catalog: CatalogModel)
    requires
        content_type is Package || content_type is Channel || content_type is Bundle,
    ensures
        list_lines(content_type, catalog) == seq!["Unsupported content type"@],
{
}

/// A show of a plural content type is the one line that says so, whatever
/// the name and whatever the catalog holds.
pub proof fn lemma_show_fallback(content_type: ContentType, name: Seq<char>, catalog: CatalogModel)
    requires
        content_type is Packages || content_type is Channels || content_type is Bundles,
    ensures
        show_blocks(content_type, name, catalog) == seq!["Unsupported content type"@],
{
}

} // verus!
