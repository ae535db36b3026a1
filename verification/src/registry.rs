//! The registry of published mods: for each name the latest record that the
//! mod list gave, taken from the network or, failing that, from the copy kept
//! on disk.

use vstd::prelude::*;

verus! {

/// The latest published state of one mod.
#[derive(Debug)]
pub struct ModInfoCached {
    pub name: String,
    pub version: String,
    pub game_banana_id: i64,
    pub game_banana_file_id: i64,
    pub download_url: String,
}

pub struct ModInfoView {
    pub name: Seq<char>,
    pub version: Seq<char>,
    pub game_banana_id: i64,
    pub game_banana_file_id: i64,
    pub download_url: Seq<char>,
}

impl View for ModInfoCached {
    type V = ModInfoView;

    open spec fn view(&self) -> ModInfoView {
        ModInfoView {
            name: self.name@,
            version: self.version@,
            game_banana_id: self.game_banana_id,
            game_banana_file_id: self.game_banana_file_id,
            download_url: self.download_url@,
        }
    }
}

impl DeepView for ModInfoCached {
    type V = ModInfoView;

    open spec fn deep_view(&self) -> ModInfoView {
        self@
    }
}

/// The records of a mod list by name. Where a name occurs more than once,
/// the record that comes last in the list stands for it.
pub open spec fn index_by_name(mods: Seq<ModInfoView>) -> Map<Seq<char>, ModInfoView>
    decreases mods.len(),
{
    if mods.len() == 0 {
        Map::empty()
    } else {
        index_by_name(mods.drop_last()).insert(mods.last().name, mods.last())
    }
}

pub open spec fn distinct_names(mods: Seq<ModInfoView>) -> bool {
    forall|i: int, j: int| 0 <= i < j < mods.len() ==> mods[i].name != mods[j].name
}

/// The mod list that a registry is built from: the fetched one where there is
/// one, else the one kept from an earlier run, else none at all.
pub open spec fn chosen_listing(
    fetched: Option<Seq<ModInfoView>>,
    cached: Option<Seq<ModInfoView>>,
) -> Seq<ModInfoView> {
    match fetched {
        Some(mods) => mods,
        None => match cached {
            Some(mods) => mods,
            None => Seq::empty(),
        },
    }
}

/// The record at `i` is the one that stands for its name.
pub proof fn lemma_index_lookup(mods: Seq<ModInfoView>, i: int)
    requires
        0 <= i < mods.len(),
        forall|j: int| i < j < mods.len() ==> mods[j].name != mods[i].name,
    ensures
        index_by_name(mods).contains_key(mods[i].name),
        index_by_name(mods)[mods[i].name] == mods[i],
    decreases mods.len(),
{
    if i < mods.len() - 1 {
        let front = mods.drop_last();
        assert(front[i] == mods[i]);
        assert forall|j: int| i < j < front.len() implies front[j].name != front[i].name by {
            assert(front[j] == mods[j]);
        }
        lemma_index_lookup(front, i);
    }
}

/// The names of the index are the names that occur in the list.
pub proof fn lemma_index_names(mods: Seq<ModInfoView>, name: Seq<char>)
    ensures
        index_by_name(mods).contains_key(name) <==> exists|i: int|
            0 <= i < mods.len() && mods[i].name == name,
    decreases mods.len(),
{
    if mods.len() > 0 {
        let front = mods.drop_last();
        lemma_index_names(front, name);
        if index_by_name(mods).contains_key(name) {
            if mods.last().name == name {
                assert(mods[mods.len() - 1].name == name);
            } else {
                let i = choose|i: int| 0 <= i < front.len() && front[i].name == name;
                assert(mods[i].name == name);
            }
        }
        if exists|i: int| 0 <= i < mods.len() && mods[i].name == name {
            let i = choose|i: int| 0 <= i < mods.len() && mods[i].name == name;
            if i < mods.len() - 1 {
                assert(front[i].name == name);
            }
        }
    }
}

/// An index has no more names than the list that it is made of has records.
pub proof fn lemma_index_is_finite(mods: Seq<ModInfoView>)
    ensures
        index_by_name(mods).dom().finite(),
        index_by_name(mods).dom().len() <= mods.len(),
    decreases mods.len(),
{
    if mods.len() > 0 {
        lemma_index_is_finite(mods.drop_last());
    }
}

/// Putting a record in the place of the one that has its name changes the
/// index as an insertion under that name does.
proof fn lemma_replace(mods: Seq<ModInfoView>, k: int, record: ModInfoView)
    requires
        distinct_names(mods),
        0 <= k < mods.len(),
        mods[k].name == record.name,
    ensures
        distinct_names(mods.update(k, record)),
        index_by_name(mods.update(k, record)) == index_by_name(mods).insert(record.name, record),
{
    let changed = mods.update(k, record);
    let left = index_by_name(changed);
    let right = index_by_name(mods).insert(record.name, record);
    assert forall|i: int| 0 <= i < mods.len() implies changed[i].name == mods[i].name by {}
    assert forall|name: Seq<char>| left.contains_key(name) == right.contains_key(name) by {
        lemma_index_names(changed, name);
        lemma_index_names(mods, name);
        if exists|i: int| 0 <= i < changed.len() && changed[i].name == name {
            let i = choose|i: int| 0 <= i < changed.len() && changed[i].name == name;
            assert(mods[i].name == name);
        }
        if exists|i: int| 0 <= i < mods.len() && mods[i].name == name {
            let i = choose|i: int| 0 <= i < mods.len() && mods[i].name == name;
            assert(changed[i].name == name);
        }
        assert(mods[k].name == record.name);
    }
    assert forall|name: Seq<char>| left.contains_key(name) implies left[name] == right[name] by {
        lemma_index_names(changed, name);
        let i = choose|i: int| 0 <= i < changed.len() && changed[i].name == name;
        lemma_index_lookup(changed, i);
        if i != k {
            lemma_index_lookup(mods, i);
        }
    }
    assert(left =~= right);
}

/// The registry: for each name, the latest record of the mod of that name.
/// It does not change once it is made.
pub struct ModRegistry {
    mods: Vec<ModInfoCached>,
    using_cache: bool,
}

impl View for ModRegistry {
    type V = Map<Seq<char>, ModInfoView>;

    closed spec fn view(&self) -> Map<Seq<char>, ModInfoView> {
        index_by_name(self.mods.deep_view())
    }
}

impl ModRegistry {
    #[verifier::type_invariant]
    spec fn one_record_per_name(self) -> bool {
        distinct_names(self.mods.deep_view())
    }

    /// The records come from the copy kept on disk, not from the network.
    pub closed spec fn stale(&self) -> bool {
        self.using_cache
    }

    /// A registry holds finitely many mods.
    pub proof fn lemma_finite(self)
        ensures
            self@.dom().finite(),
    {
        lemma_index_is_finite(self.mods.deep_view());
    }

    /// The record of the mod called `name`, where the registry has one.
    pub fn get(&self, name: &str) -> (found: Option<&ModInfoCached>)
        ensures
            match found {
                Some(record) => self@.contains_key(name@) && self@[name@] == record@,
                None => !self@.contains_key(name@),
            },
    {
        proof {
            use_type_invariant(self);
        }
        let ghost mods = self.mods.deep_view();
        let wanted = name.to_owned();
        let mut i: usize = 0;
        while i < self.mods.len()
            invariant
                i <= self.mods.len(),
                mods == self.mods.deep_view(),
                distinct_names(mods),
                wanted@ == name@,
                forall|j: int| 0 <= j < i ==> mods[j].name != name@,
            decreases self.mods.len() - i,
        {
            let record = &self.mods[i];
            assert(mods[i as int] == record@);
            if record.name == wanted {
                proof {
                    lemma_index_lookup(mods, i as int);
                }
                return Some(record);
            }
            i += 1;
        }
        proof {
            lemma_index_names(mods, name@);
        }
        None
    }

    /// Whether the registry has a mod called `name`.
    pub fn contains_key(&self, name: &str) -> (b: bool)
        ensures
            b == self@.contains_key(name@),
    {
        self.get(name).is_some()
    }

    /// Every record of the registry, one for each name.
    pub fn entries(&self) -> (mods: &Vec<ModInfoCached>)
        ensures
            distinct_names(mods.deep_view()),
            index_by_name(mods.deep_view()) == self@,
    {
        proof {
            use_type_invariant(self);
        }
        &self.mods
    }
}

/// Puts `record` into a list that holds one record for each name: in the
/// place of the record of its name, or at the end where there is none.
fn insert_latest(mods: &mut Vec<ModInfoCached>, record: ModInfoCached)
    requires
        distinct_names(old(mods).deep_view()),
    ensures
        distinct_names(final(mods).deep_view()),
        index_by_name(final(mods).deep_view()) == index_by_name(old(mods).deep_view()).insert(
            record@.name,
            record@,
        ),
{
    let ghost before = mods.deep_view();
    let mut k: usize = 0;
    while k < mods.len()
        invariant
            k <= mods.len(),
            mods.deep_view() == before,
            before == old(mods).deep_view(),
            distinct_names(before),
            forall|j: int| 0 <= j < k ==> before[j].name != record@.name,
        decreases mods.len() - k,
    {
        assert(before[k as int] == mods@[k as int]@);
        if mods[k].name == record.name {
            proof {
                lemma_replace(before, k as int, record@);
            }
            mods.set(k, record);
            assert(mods.deep_view() =~= before.update(k as int, record@));
            return ;
        }
        k += 1;
    }
    mods.push(record);
    assert(mods.deep_view() =~= before.push(record@));
    assert(mods.deep_view().drop_last() =~= before);
}

/// One record for each name of `listing`, the last of each name.
fn latest_by_name(listing: Vec<ModInfoCached>) -> (mods: Vec<ModInfoCached>)
    ensures
        distinct_names(mods.deep_view()),
        index_by_name(mods.deep_view()) == index_by_name(listing.deep_view()),
{
    let ghost all = listing.deep_view();
    let mut listing = listing;
    let mut back: Vec<ModInfoCached> = Vec::new();
    while listing.len() > 0
        invariant
            forall|i: int| 0 <= i < listing.len() ==> listing.deep_view()[i] == all[i],
            listing.len() + back.len() == all.len(),
            forall|i: int|
                0 <= i < back.len() ==> back.deep_view()[i] == all[all.len() - 1 - i],
        decreases listing.len(),
    {
        let ghost shorter = listing.deep_view().drop_last();
        let ghost longer = back.deep_view();
        let record = listing.pop().unwrap();
        assert(listing.deep_view() =~= shorter);
        back.push(record);
        assert(back.deep_view() =~= longer.push(record@));
    }
    let mut mods: Vec<ModInfoCached> = Vec::new();
    while back.len() > 0
        invariant
            back.len() <= all.len(),
            forall|i: int|
                0 <= i < back.len() ==> back.deep_view()[i] == all[all.len() - 1 - i],
            distinct_names(mods.deep_view()),
            index_by_name(mods.deep_view()) == index_by_name(all.take(all.len() - back.len())),
        decreases back.len(),
    {
        let ghost shorter = back.deep_view().drop_last();
        let ghost done = all.len() - back.len();
        let ghost top = back.deep_view()[back.len() - 1];
        assert(top == all[done]);
        let record = back.pop().unwrap();
        assert(back.deep_view() =~= shorter);
        assert(record@ == top);
        assert(all.take(done + 1).drop_last() =~= all.take(done));
        insert_latest(&mut mods, record);
    }
    assert(all.take(all.len() as int) =~= all);
    mods
}

/// The registry for this process. It holds the fetched mod list where the
/// fetch gave one. Where it gave none, it holds the list kept from an earlier
/// run and is marked as stale; with neither, it is empty and not stale.
pub fn get_mod_cached_new(
    fetched: Option<Vec<ModInfoCached>>,
    cached: Option<Vec<ModInfoCached>>,
) -> (registry: ModRegistry)
    ensures
        registry@ == index_by_name(chosen_listing(fetched.deep_view(), cached.deep_view())),
        registry.stale() <==> fetched is None && cached is Some,
{
    match fetched {
        Some(listing) => ModRegistry { mods: latest_by_name(listing), using_cache: false },
        None => match cached {
            Some(listing) => ModRegistry { mods: latest_by_name(listing), using_cache: true },
            None => ModRegistry { mods: Vec::new(), using_cache: false },
        },
    }
}

/// Whether the registry holds the list kept from an earlier run because the
/// mod list could not be fetched.
pub fn is_using_cache(registry: &ModRegistry) -> (b: bool)
    ensures
        b == registry.stale(),
{
    registry.using_cache
}

} // verus!
