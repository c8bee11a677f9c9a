//! Backends that spawn machines, and what they share.
use crate::error::Error;
use crate::Machine;
use crate::text::same;
use itertools::Itertools;
use rand::Rng;
use std::hash::Hash;
use vstd::prelude::*;
use vstd::string::*;

pub mod aws;
pub mod azure;
pub mod baremetal;

verus! {

/// A description of a set of machines to launch, all in one `region`.
#[derive(Debug, Clone)]
pub struct LaunchDescriptor<M: MachineSetup> {
    /// The region to launch into.
    pub region: String,
    /// How long the launch may take, in milliseconds; `None` is no limit.
    pub max_wait: Option<u64>,
    /// The machines to launch, each under its nickname.
    pub machines: Vec<(String, M)>,
}

/// A machine descriptor names the region it is launched in; machines are
/// grouped by it, one provider connection per region.
pub trait MachineSetup {
    /// The region, as contracts speak of it.
    spec fn region_key(&self) -> Seq<char>;

    /// The region.
    fn region(&self) -> (r: String)
        ensures
            r@ == self.region_key(),
    ;
}

/// A cloud provider that machines can be spawned into. `launch` is called
/// once per region.
pub trait Launcher {
    /// A description of a single machine to launch.
    type MachineDescriptor: MachineSetup;

    /// Spawns the machines of one region. An implementor remembers enough to
    /// answer `connect_all` later. This can be called more than once: the
    /// machines of later calls come on top of those of earlier ones.
    fn launch(&mut self, desc: LaunchDescriptor<Self::MachineDescriptor>) -> Result<(), Error>;

    /// Where the machines that `launch` spawned can be reached, each under
    /// its nickname.
    fn connect_all(&self) -> Result<Vec<(String, Machine)>, Error>;

    /// Shuts down all machines and releases what was allocated for them.
    fn cleanup(&mut self) -> Result<(), Error>;
}

/// What a value is grouped by. The trait stays inside the crate, whose two
/// key types are a string and a pair of strings.
pub(crate) trait GroupKey {
    /// The key as a sequence of strings. Two keys compare equal with `==`
    /// exactly when these sequences are equal.
    spec fn key_view(&self) -> Seq<Seq<char>>;
}

impl GroupKey for String {
    open spec fn key_view(&self) -> Seq<Seq<char>> {
        seq![self@]
    }
}

impl GroupKey for (String, String) {
    open spec fn key_view(&self) -> Seq<Seq<char>> {
        seq![self.0@, self.1@]
    }
}

/// The values of `items` filed under `key`, in their order in `items`.
pub(crate) open spec fn values_with_key<K: GroupKey, V>(items: Seq<(K, V)>, key: Seq<Seq<char>>) -> Seq<V>
    decreases items.len(),
{
    if items.len() == 0 {
        Seq::empty()
    } else {
        let rest = values_with_key(items.drop_last(), key);
        if items.last().0.key_view() == key {
            rest.push(items.last().1)
        } else {
            rest
        }
    }
}

/// Some entry of `items` has the key `key`.
pub(crate) open spec fn has_key<K: GroupKey, V>(items: Seq<(K, V)>, key: Seq<Seq<char>>) -> bool {
    exists|i: int| 0 <= i < items.len() && (#[trigger] items[i]).0.key_view() == key
}

/// `groups` files every item of `items` under its key: one group per key that
/// occurs, each holding the values of that key in the order of `items`.
pub(crate) open spec fn is_grouping<K: GroupKey, V>(items: Seq<(K, V)>, groups: Seq<(K, Vec<V>)>) -> bool {
    &&& forall|g: int, h: int|
        0 <= g < h < groups.len() ==> groups[g].0.key_view() != groups[h].0.key_view()
    &&& forall|g: int|
        0 <= g < groups.len() ==> (#[trigger] groups[g]).1@ == values_with_key(
            items,
            groups[g].0.key_view(),
        )
    &&& forall|g: int| 0 <= g < groups.len() ==> has_key(items, (#[trigger] groups[g]).0.key_view())
    &&& forall|i: int| 0 <= i < items.len() ==> has_key(groups, (#[trigger] items[i]).0.key_view())
}

/// Groups `items` by key. This calls `Itertools::into_group_map` and hands the
/// map it builds back as a list of its entries. The contract is read off the
/// source of itertools, not proved: the map files each value under its key,
/// appending in iteration order. The order of the entries themselves is that
/// of a hash map, which is why the contract leaves it open. Keys are told
/// apart by `==`, which for the key types of this crate is equality of their
/// `key_view`.
#[verifier::external_body]
pub(crate) fn into_group_map<K: GroupKey + Hash + Eq, V>(items: Vec<(K, V)>) -> (groups: Vec<
    (K, Vec<V>),
>)
    ensures
        is_grouping(items@, groups@),
{
    items.into_iter().into_group_map().into_iter().collect()
}

/// The descriptors of `ds` whose region is `region`, in their order in `ds`.
pub open spec fn machines_in_region<M: MachineSetup>(ds: Seq<(String, M)>, region: Seq<char>) -> Seq<
    (String, M),
>
    decreases ds.len(),
{
    if ds.len() == 0 {
        Seq::empty()
    } else {
        let rest = machines_in_region(ds.drop_last(), region);
        if ds.last().1.region_key() == region {
            rest.push(ds.last())
        } else {
            rest
        }
    }
}

/// The region of each descriptor of `ds`, in order.
pub open spec fn regions_of<M: MachineSetup>(ds: Seq<(String, M)>) -> Seq<Seq<char>> {
    ds.map_values(|d: (String, M)| d.1.region_key())
}

/// The region of each batch, in order.
pub open spec fn batch_regions<M: MachineSetup>(batches: Seq<LaunchDescriptor<M>>) -> Seq<Seq<char>> {
    batches.map_values(|b: LaunchDescriptor<M>| b.region@)
}

/// `batches` partitions `ds` by region: one batch per region that occurs in
/// `ds`, holding exactly the descriptors of that region in the order in which
/// `ds` has them, each with the deadline `max_wait`.
pub open spec fn is_region_partition<M: MachineSetup>(
    ds: Seq<(String, M)>,
    max_wait: Option<u64>,
    batches: Seq<LaunchDescriptor<M>>,
) -> bool {
    &&& batch_regions(batches).no_duplicates()
    &&& batch_regions(batches).to_set() == regions_of(ds).to_set()
    &&& batches.len() == regions_of(ds).to_set().len()
    &&& forall|b: int|
        0 <= b < batches.len() ==> (#[trigger] batches[b]).machines@ == machines_in_region(
            ds,
            batches[b].region@,
        ) && batches[b].max_wait == max_wait
}

/// A partition loses nothing: every descriptor stands in the batch of its
/// own region.
pub proof fn lemma_partition_covers<M: MachineSetup>(
    ds: Seq<(String, M)>,
    max_wait: Option<u64>,
    batches: Seq<LaunchDescriptor<M>>,
    i: int,
)
    requires
        is_region_partition(ds, max_wait, batches),
        0 <= i < ds.len(),
    ensures
        exists|b: int|
            0 <= b < batches.len() && (#[trigger] batches[b]).region@ == ds[i].1.region_key()
                && batches[b].machines@.contains(ds[i]),
{
    let region = ds[i].1.region_key();
    assert(regions_of(ds)[i] == region);
    assert(regions_of(ds).to_set().contains(region));
    assert(batch_regions(batches).to_set().contains(region));
    let b = choose|b: int| 0 <= b < batches.len() && batch_regions(batches)[b] == region;
    lemma_region_holds(ds, region, i);
    assert(batches[b].region@ == region);
}

proof fn lemma_region_holds<M: MachineSetup>(ds: Seq<(String, M)>, region: Seq<char>, i: int)
    requires
        0 <= i < ds.len(),
        ds[i].1.region_key() == region,
    ensures
        machines_in_region(ds, region).contains(ds[i]),
    decreases ds.len(),
{
    let rest = machines_in_region(ds.drop_last(), region);
    if i == ds.len() - 1 {
        assert(machines_in_region(ds, region) == rest.push(ds.last()));
        assert(rest.push(ds.last())[rest.len() as int] == ds[i]);
    } else {
        lemma_region_holds(ds.drop_last(), region, i);
        let k = choose|k: int| 0 <= k < rest.len() && rest[k] == ds.drop_last()[i];
        if ds.last().1.region_key() == region {
            assert(rest.push(ds.last())[k] == ds[i]);
        }
    }
}

proof fn lemma_keyed_values<M: MachineSetup>(
    ds: Seq<(String, M)>,
    keyed: Seq<(String, (String, M))>,
    region: Seq<char>,
)
    requires
        keyed.len() == ds.len(),
        forall|i: int|
            0 <= i < ds.len() ==> (#[trigger] keyed[i]).1 == ds[i] && keyed[i].0@
                == ds[i].1.region_key(),
    ensures
        values_with_key(keyed, seq![region]) == machines_in_region(ds, region),
    decreases ds.len(),
{
    if ds.len() > 0 {
        lemma_keyed_values(ds.drop_last(), keyed.drop_last(), region);
        let k = keyed.last();
        assert(k.1 == ds.last());
        assert((k.0.key_view() == seq![region]) == (ds.last().1.region_key() == region)) by {
            if k.0.key_view() == seq![region] {
                assert(k.0.key_view()[0] == seq![region][0]);
            }
        }
    }
}

/// Partitions named descriptors by region into launch batches, each with the
/// shared deadline `max_wait`. The order of the batches is not fixed.
pub fn group_by_region<M: MachineSetup>(descriptors: Vec<(String, M)>, max_wait: Option<u64>) -> (batches:
    Vec<LaunchDescriptor<M>>)
    ensures
        is_region_partition(descriptors@, max_wait, batches@),
{
    let ghost ds = descriptors@;
    let mut keyed: Vec<(String, (String, M))> = Vec::new();
    for d in it: descriptors
        invariant
            it.seq() == ds,
            keyed@.len() == it.index(),
            forall|i: int|
                0 <= i < keyed@.len() ==> (#[trigger] keyed@[i]).1 == ds[i] && keyed@[i].0@
                    == ds[i].1.region_key(),
    {
        let r = d.1.region();
        keyed.push((r, d));
    }
    let ghost ks = keyed@;
    let groups = into_group_map(keyed);
    let ghost gs = groups@;
    let mut batches: Vec<LaunchDescriptor<M>> = Vec::new();
    for g in it: groups
        invariant
            it.seq() == gs,
            is_grouping(ks, gs),
            ks.len() == ds.len(),
            forall|i: int|
                0 <= i < ds.len() ==> (#[trigger] ks[i]).1 == ds[i] && ks[i].0@
                    == ds[i].1.region_key(),
            batches@.len() == it.index(),
            forall|b: int|
                0 <= b < batches@.len() ==> (#[trigger] batches@[b]).region == gs[b].0
                    && batches@[b].machines == gs[b].1 && batches@[b].max_wait == max_wait,
    {
        batches.push(LaunchDescriptor { region: g.0, max_wait, machines: g.1 });
    }
    proof {
        let regions = batch_regions(batches@);
        assert forall|b: int| 0 <= b < batches@.len() implies (#[trigger] batches@[b]).machines@
            == machines_in_region(ds, batches@[b].region@) by {
            lemma_keyed_values(ds, ks, batches@[b].region@);
            assert(gs[b].0.key_view() == seq![batches@[b].region@]);
        }
        assert forall|g: int, h: int| 0 <= g < h < regions.len() implies regions[g]
            != regions[h] by {
            assert(gs[g].0.key_view() != gs[h].0.key_view());
        }
        assert(regions.to_set() =~= regions_of(ds).to_set()) by {
            assert forall|r: Seq<char>| regions.to_set().contains(r) implies regions_of(
                ds,
            ).to_set().contains(r) by {
                let g = choose|g: int| 0 <= g < regions.len() && regions[g] == r;
                assert(has_key(ks, gs[g].0.key_view()));
                let i = choose|i: int|
                    0 <= i < ks.len() && (#[trigger] ks[i]).0.key_view() == gs[g].0.key_view();
                assert(ks[i].0.key_view()[0] == gs[g].0.key_view()[0]);
                assert(regions_of(ds)[i] == r);
            }
            assert forall|r: Seq<char>| regions_of(ds).to_set().contains(r) implies regions.to_set().contains(
                r,
            ) by {
                let i = choose|i: int| 0 <= i < ds.len() && regions_of(ds)[i] == r;
                assert(has_key(gs, ks[i].0.key_view()));
                let g = choose|g: int|
                    0 <= g < gs.len() && (#[trigger] gs[g]).0.key_view() == ks[i].0.key_view();
                assert(ks[i].0.key_view()[0] == gs[g].0.key_view()[0]);
                assert(regions[g] == r);
            }
        }
        regions.unique_seq_to_set();
    }
    batches
}

/// The entry at `j` carries a nickname that an earlier entry carries too.
pub open spec fn repeats_at<M>(ds: Seq<(String, M)>, j: int) -> bool {
    exists|i: int| 0 <= i < j && (#[trigger] ds[i]).0@ == ds[j].0@
}

/// No nickname occurs twice in `ds`.
pub open spec fn unique_nicknames<M>(ds: Seq<(String, M)>) -> bool {
    forall|j: int| 0 <= j < ds.len() ==> !repeats_at(ds, j)
}

/// `j` is the first position of `ds` whose nickname occurred before.
pub open spec fn is_first_repeat<M>(ds: Seq<(String, M)>, j: int) -> bool {
    &&& 0 <= j < ds.len()
    &&& repeats_at(ds, j)
    &&& forall|k: int| 0 <= k < j ==> !repeats_at(ds, k)
}

/// Some entry of `ds` carries the nickname `name`.
pub open spec fn has_nickname<M>(ds: Seq<(String, M)>, name: Seq<char>) -> bool {
    exists|i: int| 0 <= i < ds.len() && (#[trigger] ds[i]).0@ == name
}

/// `r` is the configuration error for the first repeated nickname of `ds`.
pub open spec fn is_duplicate_error<M, T>(ds: Seq<(String, M)>, r: Result<T, Error>) -> bool {
    r matches Err(Error::DuplicateNickname { nickname }) && exists|j: int|
        #[trigger] is_first_repeat(ds, j) && nickname@ == ds[j].0@
}

/// Whether `name` is a nickname in `ds`.
pub fn contains_nickname<M>(ds: &Vec<(String, M)>, name: &str) -> (found: bool)
    ensures
        found == has_nickname(ds@, name@),
{
    let mut i: usize = 0;
    while i < ds.len()
        invariant
            i <= ds.len(),
            forall|k: int| 0 <= k < i ==> (#[trigger] ds@[k]).0@ != name@,
        decreases ds.len() - i,
    {
        if same(ds[i].0.as_str(), name) {
            return true;
        }
        i += 1;
    }
    false
}

/// The first position whose nickname occurred earlier in `ds`, if any.
pub fn find_duplicate<M>(ds: &Vec<(String, M)>) -> (r: Option<usize>)
    ensures
        match r {
            None => unique_nicknames(ds@),
            Some(j) => is_first_repeat(ds@, j as int),
        },
{
    let mut j: usize = 0;
    while j < ds.len()
        invariant
            j <= ds.len(),
            forall|k: int| 0 <= k < j ==> !repeats_at(ds@, k),
        decreases ds.len() - j,
    {
        let mut i: usize = 0;
        while i < j
            invariant
                i <= j < ds.len(),
                forall|k: int| 0 <= k < j ==> !repeats_at(ds@, k),
                forall|k: int| 0 <= k < i ==> (#[trigger] ds@[k]).0@ != ds@[j as int].0@,
            decreases j - i,
        {
            if same(ds[i].0.as_str(), ds[j].0.as_str()) {
                assert(ds@[i as int].0@ == ds@[j as int].0@);
                return Some(j);
            }
            i += 1;
        }
        j += 1;
    }
    None
}

/// What becomes of a run after one launch: it goes on after a success, and
/// ends with the error of a failure.
pub fn after_launch(outcome: Result<(), Error>) -> (stop: Option<Error>)
    ensures
        match outcome {
            Ok(_) => stop is None,
            Err(e) => stop == Some(e),
        },
{
    match outcome {
        Ok(_) => None,
        Err(e) => Some(e),
    }
}

/// Starts up all the machines: checks that no nickname is used twice, groups
/// the descriptors by region and launches the groups one after another.
/// The first failing launch ends the run with its error; groups launched
/// before it stay launched, and the remaining ones are not attempted.
///
/// With a repeated nickname nothing is launched at all.
pub fn spawn<L: Launcher>(
    launcher: &mut L,
    descriptors: Vec<(String, L::MachineDescriptor)>,
    max_wait: Option<u64>,
) -> (r: Result<(), Error>)
    ensures
        !unique_nicknames(descriptors@) ==> is_duplicate_error(descriptors@, r) && *final(launcher)
            == *old(launcher),
        descriptors@.len() == 0 ==> r is Ok && *final(launcher) == *old(launcher),
{
    match find_duplicate(&descriptors) {
        Some(j) => {
            return Err(Error::DuplicateNickname { nickname: descriptors[j].0.clone() });
        },
        None => {},
    }
    let ghost ds = descriptors@;
    let ghost empty = descriptors@.len() == 0;
    let batches = group_by_region(descriptors, max_wait);
    proof {
        if empty {
            assert(regions_of(descriptors@) =~= Seq::empty());
            assert(regions_of(descriptors@).to_set() =~= Set::empty());
        }
    }
    for b in it: batches
        invariant
            ds == descriptors@,
            unique_nicknames(ds),
            empty == (ds.len() == 0),
            empty ==> it.seq().len() == 0,
            empty ==> *launcher == *old(launcher),
    {
        assert(!empty);
        match after_launch(launcher.launch(b)) {
            Some(e) => {
                return Err(e);
            },
            None => {},
        }
    }
    Ok(())
}

/// `r` is what launching `batches` one after another with `launch` comes to:
/// success where every launch succeeded, and otherwise the error of the first
/// launch that failed, all launches before it having succeeded.
pub open spec fn is_run_of<M: MachineSetup, F: Fn(LaunchDescriptor<M>) -> Result<(), Error>>(
    batches: Seq<LaunchDescriptor<M>>,
    launch: F,
    r: Result<(), Error>,
) -> bool {
    match r {
        Ok(_) => forall|k: int|
            0 <= k < batches.len() ==> call_ensures(launch, (#[trigger] batches[k],), Ok(())),
        Err(e) => exists|k: int|
            0 <= k < batches.len() && call_ensures(launch, (#[trigger] batches[k],), Err(e))
                && forall|j: int|
                0 <= j < k ==> call_ensures(launch, (#[trigger] batches[j],), Ok(())),
    }
}

/// Launches `batches` one after another with `launch`, up to the first
/// failure, whose error ends the run. Nothing is undone for the batches
/// launched before it, and the ones after it are not attempted.
pub fn launch_each<M: MachineSetup, F: Fn(LaunchDescriptor<M>) -> Result<(), Error>>(
    batches: Vec<LaunchDescriptor<M>>,
    launch: &F,
) -> (r: Result<(), Error>)
    requires
        forall|b: LaunchDescriptor<M>| call_requires(*launch, (b,)),
    ensures
        is_run_of(batches@, *launch, r),
{
    let ghost bs = batches@;
    for b in it: batches
        invariant
            it.seq() == bs,
            forall|b: LaunchDescriptor<M>| call_requires(*launch, (b,)),
            forall|j: int|
                0 <= j < it.index() ==> call_ensures(*launch, (#[trigger] bs[j],), Ok(())),
    {
        let ghost at = it.index() as int;
        assert(b == bs[at]);
        let outcome = launch(b);
        assert(call_ensures(*launch, (bs[at],), outcome));
        match after_launch(outcome) {
            Some(e) => {
                assert(outcome == Err::<(), Error>(e));
                return Err(e);
            },
            None => {
                assert(outcome is Ok);
                assert(outcome->Ok_0 == ());
                assert(outcome == Ok::<(), Error>(()));
            },
        }
    }
    Ok(())
}

/// Starts up all the machines with the engine `launch`: checks that no
/// nickname is used twice, groups the descriptors by region and launches the
/// groups one after another, as [`launch_each`] does.
pub fn spawn_with<M: MachineSetup, F: Fn(LaunchDescriptor<M>) -> Result<(), Error>>(
    descriptors: Vec<(String, M)>,
    max_wait: Option<u64>,
    launch: &F,
) -> (r: Result<(), Error>)
    requires
        forall|b: LaunchDescriptor<M>| call_requires(*launch, (b,)),
    ensures
        !unique_nicknames(descriptors@) ==> is_duplicate_error(descriptors@, r),
        unique_nicknames(descriptors@) ==> exists|batches: Seq<LaunchDescriptor<M>>| #[trigger]
            is_region_partition(descriptors@, max_wait, batches) && is_run_of(
                batches,
                *launch,
                r,
            ),
{
    match find_duplicate(&descriptors) {
        Some(j) => {
            return Err(Error::DuplicateNickname { nickname: descriptors[j].0.clone() });
        },
        None => {},
    }
    let batches = group_by_region(descriptors, max_wait);
    let ghost bs = batches@;
    let r = launch_each(batches, launch);
    assert(is_region_partition(descriptors@, max_wait, bs) && is_run_of(bs, *launch, r));
    r
}

/// The entries of all `lists`, one list after another.
pub open spec fn concat_all<C>(lists: Seq<Vec<(String, C)>>) -> Seq<(String, C)>
    decreases lists.len(),
{
    if lists.len() == 0 {
        Seq::empty()
    } else {
        concat_all(lists.drop_last()) + lists.last()@
    }
}

/// Folds the nickname-to-connection lists of several regions into one. Fails
/// where two entries carry the same nickname, rather than letting one replace
/// the other.
pub fn merge<C>(per_region: Vec<Vec<(String, C)>>) -> (r: Result<Vec<(String, C)>, Error>)
    ensures
        unique_nicknames(concat_all(per_region@)) ==> (r matches Ok(all) && all@ == concat_all(
            per_region@,
        )),
        !unique_nicknames(concat_all(per_region@)) ==> is_duplicate_error(
            concat_all(per_region@),
            r,
        ),
{
    let ghost lists = per_region@;
    let mut all: Vec<(String, C)> = Vec::new();
    for list in it: per_region
        invariant
            it.seq() == lists,
            all@ == concat_all(lists.take(it.index())),
    {
        let mut list = list;
        proof {
            assert(lists.take(it.index() + 1).drop_last() == lists.take(it.index()));
        }
        all.append(&mut list);
    }
    proof {
        assert(lists.take(lists.len() as int) == lists);
    }
    match find_duplicate(&all) {
        Some(j) => Err(Error::DuplicateNickname { nickname: all[j].0.clone() }),
        None => Ok(all),
    }
}

/// The letters and digits of ASCII.
pub open spec fn is_alphanumeric(c: char) -> bool {
    ('a' <= c && c <= 'z') || ('A' <= c && c <= 'Z') || ('0' <= c && c <= '9')
}

/// `suffix` is what a generated name ends in: ten ASCII letters or digits.
pub open spec fn is_name_suffix(suffix: Seq<char>) -> bool {
    suffix.len() == 10 && forall|i: int| 0 <= i < suffix.len() ==> is_alphanumeric(#[trigger] suffix[i])
}

/// A generated name: the word `tsunami`, the prefix and the suffix, joined by
/// the separator.
pub open spec fn name_of(prefix: Seq<char>, sep: Seq<char>, suffix: Seq<char>) -> Seq<char> {
    "tsunami"@ + sep + prefix + sep + suffix
}

/// `name` is a generated name for `prefix` and `sep` with some valid suffix.
pub open spec fn is_generated_name(name: Seq<char>, prefix: Seq<char>, sep: Seq<char>) -> bool {
    exists|suffix: Seq<char>| is_name_suffix(suffix) && name == #[trigger] name_of(prefix, sep, suffix)
}

/// Draws `n` characters from `rand::distributions::Alphanumeric` with the
/// thread's generator (`Rng::sample_iter`). The contract is taken from rand,
/// not proved: each character is an ASCII letter or digit. Which ones come
/// out is left open, as it must be.
#[verifier::external_body]
fn random_alphanumeric(n: usize) -> (s: String)
    ensures
        s@.len() == n,
        forall|i: int| 0 <= i < s@.len() ==> is_alphanumeric(#[trigger] s@[i]),
{
    rand::thread_rng().sample_iter(&rand::distributions::Alphanumeric).take(n).collect()
}

/// Joins the parts of a generated name.
pub fn name_with_suffix(prefix: &str, sep: &str, suffix: &str) -> (name: String)
    ensures
        name@ == name_of(prefix@, sep@, suffix@),
{
    let mut name = String::from_str("tsunami");
    name.append(sep);
    name.append(prefix);
    name.append(sep);
    name.append(suffix);
    name
}

/// A fresh name for a resource: `tsunami`, `prefix` and ten random letters or
/// digits, joined by `sep`.
pub fn rand_name_sep(prefix: &str, sep: &str) -> (name: String)
    ensures
        is_generated_name(name@, prefix@, sep@),
{
    let suffix = random_alphanumeric(10);
    let name = name_with_suffix(prefix, sep, suffix.as_str());
    proof {
        assert(is_name_suffix(suffix@));
        assert(name@ == name_of(prefix@, sep@, suffix@));
    }
    name
}

/// A fresh name for a resource, joined by underscores.
pub fn rand_name(prefix: &str) -> (name: String)
    ensures
        is_generated_name(name@, prefix@, "_"@),
{
    rand_name_sep(prefix, "_")
}

} // verus!
