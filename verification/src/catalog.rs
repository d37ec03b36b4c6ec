//! The catalog: packages by name, and channels and bundles by owning package.

use crate::model::{
    views, Bundle, BundleModel, CatalogEntry, Channel, ChannelModel, EntryModel, Package,
    PackageModel,
};
use vstd::prelude::*;
use vstd::string::*;

verus! {

/// The members filed under one package, in the order in which they came.
#[derive(Debug, Clone, PartialEq, Eq)]
pub struct Group<T> {
    pub package: String,
    pub members: Vec<T>,
}

/// The model of a group: the owning package and the models of the members.
pub ghost struct GroupModel<T> {
    pub package: Seq<char>,
    pub members: Seq<T>,
}

impl<T: View> View for Group<T> {
    type V = GroupModel<T::V>;

    open spec fn view(&self) -> GroupModel<T::V> {
        GroupModel { package: self.package@, members: views(self.members@) }
    }
}

/// Whether `i` is the first place at which `key` stands among `keys`.
pub open spec fn is_first_place(keys: Seq<Seq<char>>, key: Seq<char>, i: int) -> bool {
    &&& 0 <= i < keys.len()
    &&& keys[i] == key
    &&& forall|j: int| 0 <= j < i ==> keys[j] != key
}

/// The first place at which `key` stands among `keys`.
pub open spec fn first_place(keys: Seq<Seq<char>>, key: Seq<char>) -> Option<int> {
    if exists|i: int| is_first_place(keys, key, i) {
        Some(choose|i: int| is_first_place(keys, key, i))
    } else {
        None
    }
}

/// A first place is the first place.
pub proof fn lemma_first_place_found(keys: Seq<Seq<char>>, key: Seq<char>, i: int)
    requires
        is_first_place(keys, key, i),
    ensures
        first_place(keys, key) == Some(i),
{
    let chosen = choose|c: int| is_first_place(keys, key, c);
    assert(is_first_place(keys, key, chosen));
    if chosen < i {
        assert(keys[chosen] != key);
    } else if i < chosen {
        assert(keys[i] != key);
    }
}

/// A key that stands nowhere has no first place.
pub proof fn lemma_first_place_absent(keys: Seq<Seq<char>>, key: Seq<char>)
    requires
        forall|j: int| 0 <= j < keys.len() ==> keys[j] != key,
    ensures
        first_place(keys, key) is None,
{
    if exists|i: int| is_first_place(keys, key, i) {
        let chosen = choose|c: int| is_first_place(keys, key, c);
        assert(keys[chosen] != key);
    }
}

/// The names of a sequence of packages.
pub open spec fn package_names(packages: Seq<PackageModel>) -> Seq<Seq<char>> {
    Seq::new(packages.len(), |i: int| packages[i].name)
}

/// The owning packages of a sequence of groups.
pub open spec fn group_names<T>(groups: Seq<GroupModel<T>>) -> Seq<Seq<char>> {
    Seq::new(groups.len(), |i: int| groups[i].package)
}

/// The packages with one more: it takes the place of the package of its name,
/// or comes last where there is none.
pub open spec fn with_package(packages: Seq<PackageModel>, package: PackageModel) -> Seq<
    PackageModel,
> {
    match first_place(package_names(packages), package.name) {
        Some(i) => packages.update(i, package),
        None => packages.push(package),
    }
}

/// The groups with one more member under `package`: it comes last in the
/// group of that package, or makes a new last group where there is none.
pub open spec fn with_member<T>(groups: Seq<GroupModel<T>>, package: Seq<char>, member: T) -> Seq<
    GroupModel<T>,
> {
    match first_place(group_names(groups), package) {
        Some(i) => groups.update(
            i,
            GroupModel { package: groups[i].package, members: groups[i].members.push(member) },
        ),
        None => groups.push(GroupModel { package, members: seq![member] }),
    }
}

/// The package of this name, if there is one.
pub open spec fn package_named(packages: Seq<PackageModel>, name: Seq<char>) -> Option<
    PackageModel,
> {
    match first_place(package_names(packages), name) {
        Some(i) => Some(packages[i]),
        None => None,
    }
}

/// The members filed under this package, if there are any.
pub open spec fn members_of<T>(groups: Seq<GroupModel<T>>, package: Seq<char>) -> Option<Seq<T>> {
    match first_place(group_names(groups), package) {
        Some(i) => Some(groups[i].members),
        None => None,
    }
}

/// The model of a catalog: the packages in the order in which their names
/// first came, and the groups of channels and of bundles in the order in which
/// their owning packages first came.
pub ghost struct CatalogModel {
    pub packages: Seq<PackageModel>,
    pub channels: Seq<GroupModel<ChannelModel>>,
    pub bundles: Seq<GroupModel<BundleModel>>,
}

impl CatalogModel {
    /// The catalog without entries.
    pub open spec fn empty() -> CatalogModel {
        CatalogModel { packages: Seq::empty(), channels: Seq::empty(), bundles: Seq::empty() }
    }

    /// What holds of every catalog that grouping makes: no two packages have
    /// one name, no two groups one owning package, no group is empty, and
    /// every member stands under the package that it names as its owner.
    pub open spec fn well_formed(self) -> bool {
        &&& package_names(self.packages).no_duplicates()
        &&& group_names(self.channels).no_duplicates()
        &&& group_names(self.bundles).no_duplicates()
        &&& forall|i: int|
            0 <= i < self.channels.len() ==> (#[trigger] self.channels[i]).members.len() > 0
        &&& forall|i: int|
            0 <= i < self.bundles.len() ==> (#[trigger] self.bundles[i]).members.len() > 0
        &&& forall|i: int, j: int|
            0 <= i < self.channels.len() && 0 <= j < self.channels[i].members.len() ==> (
            #[trigger] self.channels[i].members[j]).package == self.channels[i].package
        &&& forall|i: int, j: int|
            0 <= i < self.bundles.len() && 0 <= j < self.bundles[i].members.len() ==> (
            #[trigger] self.bundles[i].members[j]).package == self.bundles[i].package
    }

    /// The catalog with one more entry: a package is filed under its own
    /// name, a channel and a bundle under the name of the owning package.
    pub open spec fn insert(self, entry: EntryModel) -> CatalogModel {
        match entry {
            EntryModel::Package(package) => CatalogModel {
                packages: with_package(self.packages, package),
                ..self
            },
            EntryModel::Channel(channel) => CatalogModel {
                channels: with_member(self.channels, channel.package, channel),
                ..self
            },
            EntryModel::Bundle(bundle) => CatalogModel {
                bundles: with_member(self.bundles, bundle.package, bundle),
                ..self
            },
        }
    }
}

/// The catalog of a sequence of entries: they are inserted one by one, in
/// their order.
pub open spec fn group_entries(entries: Seq<EntryModel>) -> CatalogModel
    decreases entries.len(),
{
    if entries.len() == 0 {
        CatalogModel::empty()
    } else {
        group_entries(entries.drop_last()).insert(entries.last())
    }
}

/// One more key at the end leaves every first place where it was, and is
/// itself the first place of its key where that key stood nowhere before.
pub proof fn lemma_first_place_push(keys: Seq<Seq<char>>, last: Seq<char>, key: Seq<char>)
    ensures
        first_place(keys.push(last), key) == match first_place(keys, key) {
            Some(i) => Some(i),
            None => if key == last {
                Some(keys.len() as int)
            } else {
                None
            },
        },
{
    let more = keys.push(last);
    if exists|i: int| is_first_place(keys, key, i) {
        let i = choose|i: int| is_first_place(keys, key, i);
        assert(is_first_place(more, key, i)) by {
            assert(more[i] == keys[i]);
            assert forall|j: int| 0 <= j < i implies more[j] != key by {
                assert(more[j] == keys[j]);
            }
        }
        lemma_first_place_found(more, key, i);
    } else if key == last {
        assert(is_first_place(more, key, keys.len() as int)) by {
            assert forall|j: int| 0 <= j < keys.len() implies more[j] != key by {
                assert(more[j] == keys[j]);
                if keys[j] == key {
                    lemma_least_place(keys, key, j);
                }
            }
        }
        lemma_first_place_found(more, key, keys.len() as int);
    } else {
        assert forall|j: int| 0 <= j < more.len() implies more[j] != key by {
            if j < keys.len() {
                assert(more[j] == keys[j]);
                if keys[j] == key {
                    lemma_least_place(keys, key, j);
                }
            }
        }
        lemma_first_place_absent(more, key);
    }
}

/// A key that stands somewhere has a first place.
pub proof fn lemma_least_place(keys: Seq<Seq<char>>, key: Seq<char>, at: int)
    requires
        0 <= at < keys.len(),
        keys[at] == key,
    ensures
        exists|i: int| is_first_place(keys, key, i),
    decreases at,
{
    if exists|j: int| 0 <= j < at && keys[j] == key {
        let j = choose|j: int| 0 <= j < at && keys[j] == key;
        lemma_least_place(keys, key, j);
    } else {
        assert(is_first_place(keys, key, at));
    }
}

/// After a package is filed, its name leads to it, and every other name
/// leads where it led before.
pub proof fn lemma_with_package_lookup(
    packages: Seq<PackageModel>,
    package: PackageModel,
    name: Seq<char>,
)
    ensures
        package_named(with_package(packages, package), name) == if name == package.name {
            Some(package)
        } else {
            package_named(packages, name)
        },
{
    let names = package_names(packages);
    match first_place(names, package.name) {
        Some(i) => {
            assert(is_first_place(names, package.name, i));
            assert(package_names(packages.update(i, package)) =~= names);
        },
        None => {
            assert(package_names(packages.push(package)) =~= names.push(package.name));
            lemma_first_place_push(names, package.name, name);
            if name != package.name {
                match first_place(names, name) {
                    Some(i) => {
                        assert(is_first_place(names, name, i));
                    },
                    None => {},
                }
            }
        },
    }
}

/// After a member is filed under a package, that package leads to its
/// earlier members and then the new one, and every other package leads where
/// it led before.
pub proof fn lemma_with_member_lookup<T>(
    groups: Seq<GroupModel<T>>,
    package: Seq<char>,
    member: T,
    key: Seq<char>,
)
    ensures
        members_of(with_member(groups, package, member), key) == if key == package {
            Some(
                match members_of(groups, key) {
                    Some(members) => members.push(member),
                    None => seq![member],
                },
            )
        } else {
            members_of(groups, key)
        },
{
    let names = group_names(groups);
    match first_place(names, package) {
        Some(i) => {
            assert(is_first_place(names, package, i));
            let filed = GroupModel {
                package: groups[i].package,
                members: groups[i].members.push(member),
            };
            assert(group_names(groups.update(i, filed)) =~= names);
            if key != package {
                match first_place(names, key) {
                    Some(k) => {
                        assert(is_first_place(names, key, k));
                    },
                    None => {},
                }
            }
        },
        None => {
            let filed = GroupModel { package, members: seq![member] };
            assert(group_names(groups.push(filed)) =~= names.push(package));
            lemma_first_place_push(names, package, key);
            if key != package {
                match first_place(names, key) {
                    Some(k) => {
                        assert(is_first_place(names, key, k));
                    },
                    None => {},
                }
            }
        },
    }
}

/// The channels of a package among the entries, in the order of the entries.
pub open spec fn channels_among(entries: Seq<EntryModel>, package: Seq<char>) -> Seq<
    ChannelModel,
> {
    entries.filter_map(
        |entry: EntryModel|
            match entry {
                EntryModel::Channel(channel) => if channel.package == package {
                    Some(channel)
                } else {
                    None
                },
                _ => None,
            },
    )
}

/// The bundles of a package among the entries, in the order of the entries.
pub open spec fn bundles_among(entries: Seq<EntryModel>, package: Seq<char>) -> Seq<BundleModel> {
    entries.filter_map(
        |entry: EntryModel|
            match entry {
                EntryModel::Bundle(bundle) => if bundle.package == package {
                    Some(bundle)
                } else {
                    None
                },
                _ => None,
            },
    )
}

/// A sequence, unless it is empty.
pub open spec fn unless_empty<T>(items: Seq<T>) -> Option<Seq<T>> {
    if items.len() == 0 {
        None
    } else {
        Some(items)
    }
}

/// Every channel entry is filed once under its owning package: the channels
/// under a package are the channel entries of that package, in the order of
/// the entries, and a package without channel entries has no group.
pub proof fn lemma_channels_filed(entries: Seq<EntryModel>, package: Seq<char>)
    ensures
        members_of(group_entries(entries).channels, package) == unless_empty(
            channels_among(entries, package),
        ),
    decreases entries.len(),
{
    if entries.len() > 0 {
        let before = entries.drop_last();
        lemma_channels_filed(before, package);
        match entries.last() {
            EntryModel::Channel(channel) => {
                lemma_with_member_lookup(
                    group_entries(before).channels,
                    channel.package,
                    channel,
                    package,
                );
                if channel.package == package {
                    assert(channels_among(entries, package) =~= channels_among(
                        before,
                        package,
                    ).push(channel));
                }
            },
            _ => {},
        }
    }
}

/// Every bundle entry is filed once under its owning package: the bundles
/// under a package are the bundle entries of that package, in the order of
/// the entries, and a package without bundle entries has no group.
pub proof fn lemma_bundles_filed(entries: Seq<EntryModel>, package: Seq<char>)
    ensures
        members_of(group_entries(entries).bundles, package) == unless_empty(
            bundles_among(entries, package),
        ),
    decreases entries.len(),
{
    if entries.len() > 0 {
        let before = entries.drop_last();
        lemma_bundles_filed(before, package);
        match entries.last() {
            EntryModel::Bundle(bundle) => {
                lemma_with_member_lookup(
                    group_entries(before).bundles,
                    bundle.package,
                    bundle,
                    package,
                );
                if bundle.package == package {
                    assert(bundles_among(entries, package) =~= bundles_among(
                        before,
                        package,
                    ).push(bundle));
                }
            },
            _ => {},
        }
    }
}

/// Every package entry is filed under its own name: the name leads to a
/// package of that name.
pub proof fn lemma_package_filed(entries: Seq<EntryModel>, i: int)
    requires
        0 <= i < entries.len(),
        entries[i] is Package,
    ensures
        package_named(group_entries(entries).packages, entries[i]->Package_0.name) is Some,
        package_named(group_entries(entries).packages, entries[i]->Package_0.name)->Some_0.name
            == entries[i]->Package_0.name,
    decreases entries.len(),
{
    let name = entries[i]->Package_0.name;
    let before = entries.drop_last();
    match entries.last() {
        EntryModel::Package(package) => {
            lemma_with_package_lookup(group_entries(before).packages, package, name);
            if package.name != name {
                lemma_package_filed(before, i);
            }
        },
        _ => {
            lemma_package_filed(before, i);
        },
    }
}

/// Of the package entries of one name the last is the one filed: a package
/// entry that no package entry of its name follows is what its name leads to.
pub proof fn lemma_last_package_wins(entries: Seq<EntryModel>, i: int)
    requires
        0 <= i < entries.len(),
        entries[i] is Package,
        forall|j: int|
            i < j < entries.len() && entries[j] is Package ==> (#[trigger] entries[j])->Package_0.name
                != entries[i]->Package_0.name,
    ensures
        package_named(group_entries(entries).packages, entries[i]->Package_0.name) == Some(
            entries[i]->Package_0,
        ),
    decreases entries.len(),
{
    let name = entries[i]->Package_0.name;
    let before = entries.drop_last();
    match entries.last() {
        EntryModel::Package(package) => {
            lemma_with_package_lookup(group_entries(before).packages, package, name);
            if i < entries.len() - 1 {
                assert(entries[entries.len() - 1] is Package);
                lemma_last_package_wins(before, i);
            }
        },
        _ => {
            lemma_last_package_wins(before, i);
        },
    }
}

/// A key without a first place stands nowhere.
pub proof fn lemma_no_place(keys: Seq<Seq<char>>, key: Seq<char>)
    requires
        first_place(keys, key) is None,
    ensures
        forall|j: int| 0 <= j < keys.len() ==> keys[j] != key,
{
    assert forall|j: int| 0 <= j < keys.len() implies keys[j] != key by {
        if keys[j] == key {
            lemma_least_place(keys, key, j);
        }
    }
}

/// Filing a member keeps the owning packages of the groups distinct.
pub proof fn lemma_with_member_names<T>(groups: Seq<GroupModel<T>>, package: Seq<char>, member: T)
    requires
        group_names(groups).no_duplicates(),
    ensures
        group_names(with_member(groups, package, member)).no_duplicates(),
{
    let names = group_names(groups);
    match first_place(names, package) {
        Some(i) => {
            assert(is_first_place(names, package, i));
            let filed = GroupModel {
                package: groups[i].package,
                members: groups[i].members.push(member),
            };
            assert(group_names(groups.update(i, filed)) =~= names);
        },
        None => {
            let filed = GroupModel { package, members: seq![member] };
            assert(group_names(groups.push(filed)) =~= names.push(package));
            lemma_no_place(names, package);
        },
    }
}

/// Filing an entry keeps a catalog well-formed.
pub proof fn lemma_insert_well_formed(catalog: CatalogModel, entry: EntryModel)
    requires
        catalog.well_formed(),
    ensures
        catalog.insert(entry).well_formed(),
{
    match entry {
        EntryModel::Package(package) => {
            let names = package_names(catalog.packages);
            match first_place(names, package.name) {
                Some(i) => {
                    assert(is_first_place(names, package.name, i));
                    assert(package_names(catalog.packages.update(i, package)) =~= names);
                },
                None => {
                    assert(package_names(catalog.packages.push(package)) =~= names.push(
                        package.name,
                    ));
                    lemma_no_place(names, package.name);
                },
            }
        },
        EntryModel::Channel(channel) => {
            lemma_with_member_names(catalog.channels, channel.package, channel);
            let names = group_names(catalog.channels);
            match first_place(names, channel.package) {
                Some(i) => {
                    assert(is_first_place(names, channel.package, i));
                },
                None => {},
            }
        },
        EntryModel::Bundle(bundle) => {
            lemma_with_member_names(catalog.bundles, bundle.package, bundle);
            let names = group_names(catalog.bundles);
            match first_place(names, bundle.package) {
                Some(i) => {
                    assert(is_first_place(names, bundle.package, i));
                },
                None => {},
            }
        },
    }
}

/// The catalog of any sequence of entries is well-formed.
pub proof fn lemma_grouping_well_formed(entries: Seq<EntryModel>)
    ensures
        group_entries(entries).well_formed(),
    decreases entries.len(),
{
    if entries.len() > 0 {
        lemma_grouping_well_formed(entries.drop_last());
        lemma_insert_well_formed(group_entries(entries.drop_last()), entries.last());
    }
}

/// The groupings of a catalog's entries.
#[derive(Debug, Clone, PartialEq, Eq)]
pub struct Catalog {
    pub packages: Vec<Package>,
    pub channels: Vec<Group<Channel>>,
    pub bundles: Vec<Group<Bundle>>,
}

impl View for Catalog {
    type V = CatalogModel;

    open spec fn view(&self) -> CatalogModel {
        CatalogModel {
            packages: views(self.packages@),
            channels: views(self.channels@),
            bundles: views(self.bundles@),
        }
    }
}

/// The place of the first package of this name.
fn find_package(packages: &Vec<Package>, name: &String) -> (place: Option<usize>)
    ensures
        match place {
            Some(i) => first_place(package_names(views(packages@)), name@) == Some(i as int),
            None => first_place(package_names(views(packages@)), name@) is None,
        },
{
    let ghost keys = package_names(views(packages@));
    let mut i: usize = 0;
    while i < packages.len()
        invariant
            i <= packages.len(),
            keys == package_names(views(packages@)),
            forall|j: int| 0 <= j < i ==> keys[j] != name@,
        decreases packages.len() - i,
    {
        assert(keys[i as int] == packages@[i as int].name@);
        if packages[i].name == *name {
            proof {
                lemma_first_place_found(keys, name@, i as int);
            }
            return Some(i);
        }
        i = i + 1;
    }
    proof {
        lemma_first_place_absent(keys, name@);
    }
    None
}

/// The place of the first group of this package.
fn find_group<T: View>(groups: &Vec<Group<T>>, package: &String) -> (place: Option<usize>)
    ensures
        match place {
            Some(i) => first_place(group_names(views(groups@)), package@) == Some(i as int),
            None => first_place(group_names(views(groups@)), package@) is None,
        },
{
    let ghost keys = group_names(views(groups@));
    let mut i: usize = 0;
    while i < groups.len()
        invariant
            i <= groups.len(),
            keys == group_names(views(groups@)),
            forall|j: int| 0 <= j < i ==> keys[j] != package@,
        decreases groups.len() - i,
    {
        assert(keys[i as int] == groups@[i as int].package@);
        if groups[i].package == *package {
            proof {
                lemma_first_place_found(keys, package@, i as int);
            }
            return Some(i);
        }
        i = i + 1;
    }
    proof {
        lemma_first_place_absent(keys, package@);
    }
    None
}

/// Files a package under its name.
fn file_package(packages: &mut Vec<Package>, package: Package)
    ensures
        views(final(packages)@) == with_package(views(old(packages)@), package@),
{
    match find_package(packages, &package.name) {
        Some(i) => {
            packages[i] = package;
            assert(views(packages@) =~= views(old(packages)@).update(i as int, package@));
        },
        None => {
            packages.push(package);
            assert(views(packages@) =~= views(old(packages)@).push(package@));
        },
    }
}

/// Files a member under a package.
fn file_member<T: View>(groups: &mut Vec<Group<T>>, package: String, member: T)
    ensures
        views(final(groups)@) == with_member(views(old(groups)@), package@, member@),
{
    match find_group(groups, &package) {
        Some(i) => {
            let ghost before = groups@[i as int];
            groups[i].members.push(member);
            assert(views(groups@[i as int].members@) =~= views(before.members@).push(member@));
            assert(views(groups@) =~= views(old(groups)@).update(i as int, groups@[i as int]@));
        },
        None => {
            let mut members: Vec<T> = Vec::new();
            members.push(member);
            assert(views(members@) =~= seq![member@]);
            groups.push(Group { package, members });
            assert(views(groups@) =~= views(old(groups)@).push(
                GroupModel { package: package@, members: seq![member@] },
            ));
        },
    }
}

impl Catalog {
    /// The catalog without entries.
    pub fn new() -> (catalog: Catalog)
        ensures
            catalog@ == CatalogModel::empty(),
    {
        let catalog = Catalog { packages: Vec::new(), channels: Vec::new(), bundles: Vec::new() };
        assert(catalog@.packages =~= Seq::empty());
        assert(catalog@.channels =~= Seq::empty());
        assert(catalog@.bundles =~= Seq::empty());
        catalog
    }

    /// The catalog of a sequence of entries, filed one by one in their order.
    pub fn from_entries(entries: Vec<CatalogEntry>) -> (catalog: Catalog)
        ensures
            catalog@ == group_entries(views(entries@)),
    {
        let mut catalog = Catalog::new();
        let ghost all = views(entries@);
        assert(all.take(0) =~= Seq::<EntryModel>::empty());
        for entry in iter: entries
            invariant
                all == views(iter.seq()),
                catalog@ == group_entries(all.take(iter.index() as int)),
        {
            proof {
                let next = all.take(iter.index() + 1);
                assert(next.drop_last() =~= all.take(iter.index() as int));
                assert(next.last() == entry@);
            }
            catalog.insert(entry);
        }
        assert(all.take(all.len() as int) =~= all);
        catalog
    }

    /// The package of this name, if there is one.
    pub fn package(&self, name: &str) -> (found: Option<&Package>)
        ensures
            match found {
                Some(package) => package_named(self@.packages, name@) == Some(package@),
                None => package_named(self@.packages, name@) is None,
            },
    {
        let key = String::from_str(name);
        match find_package(&self.packages, &key) {
            Some(i) => Some(&self.packages[i]),
            None => None,
        }
    }

    /// The channels filed under this package, if there are any.
    pub fn channels_of(&self, package: &str) -> (found: Option<&Vec<Channel>>)
        ensures
            match found {
                Some(members) => members_of(self@.channels, package@) == Some(views(members@)),
                None => members_of(self@.channels, package@) is None,
            },
    {
        let key = String::from_str(package);
        match find_group(&self.channels, &key) {
            Some(i) => Some(&self.channels[i].members),
            None => None,
        }
    }

    /// The bundles filed under this package, if there are any.
    pub fn bundles_of(&self, package: &str) -> (found: Option<&Vec<Bundle>>)
        ensures
            match found {
                Some(members) => members_of(self@.bundles, package@) == Some(views(members@)),
                None => members_of(self@.bundles, package@) is None,
            },
    {
        let key = String::from_str(package);
        match find_group(&self.bundles, &key) {
            Some(i) => Some(&self.bundles[i].members),
            None => None,
        }
    }

    /// Files one entry. A package takes the place of an earlier package of
    /// its name; a channel or a bundle comes last under its owning package.
    pub fn insert(&mut self, entry: CatalogEntry)
        ensures
            final(self)@ == old(self)@.insert(entry@),
    {
        match entry {
            CatalogEntry::OlmPackage(package) => {
                file_package(&mut self.packages, package);
            },
            CatalogEntry::OpmChannel(channel) => {
                let package = channel.package.clone();
                file_member(&mut self.channels, package, channel);
            },
            CatalogEntry::OlmBundle(bundle) => {
                let package = bundle.package.clone();
                file_member(&mut self.bundles, package, bundle);
            },
        }
    }
}

} // verus!
