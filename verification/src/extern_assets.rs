//! Pickup models from an external asset directory: which assets each model
//! needs, following the dependencies that the directory's metadata lists.
use vstd::prelude::*;
use crate::primitive_types::FourCC;

verus! {

/// An asset read from the external directory: its kind and its bytes.
#[derive(Clone, Debug)]
pub struct ExternAsset {
    pub fourcc: FourCC,
    pub bytes: Vec<u8>,
}

/// A dependency the metadata lists for an asset: the kind (four bytes at
/// least) and the id of the asset depended on.
#[derive(Clone, Debug)]
pub struct ExternAssetDependency {
    pub fourcc: String,
    pub id: u32,
}

/// An asset the metadata lists: its id in the directory, the id it gets in
/// the game, and what it depends on.
#[derive(Clone, Debug)]
pub struct ExternAssetEntry {
    pub old_id: u32,
    pub new_id: u32,
    pub dependencies: Vec<ExternAssetDependency>,
}

/// A dependency: its id and the first four bytes of its kind.
pub type DepView = (u32, Seq<u8>);

/// The bytes of a dependency's kind name, in UTF-8.
pub open spec fn spec_dep_kind_bytes(d: ExternAssetDependency) -> Seq<u8> {
    vstd::utf8::encode_utf8(d.fourcc@)
}

/// The kind of a dependency: the first four bytes of its name.
pub open spec fn spec_dep_fourcc(d: ExternAssetDependency) -> Seq<u8> {
    spec_dep_kind_bytes(d).take(4)
}

/// Whether an id is among the dependencies found so far.
pub open spec fn spec_has_id(acc: Seq<DepView>, id: u32) -> bool {
    exists|k: int| 0 <= k < acc.len() && acc[k].0 == id
}

/// Scanning an asset's dependencies from `j` on: each one whose id is not
/// yet found is added with its kind. `None` where one to be added has a kind
/// of fewer than four bytes.
pub open spec fn spec_scan_deps(deps: Seq<ExternAssetDependency>, j: int, acc: Seq<DepView>, added: bool) -> Option<(Seq<DepView>, bool)>
    decreases deps.len() - j,
{
    if j >= deps.len() || j < 0 {
        Some((acc, added))
    } else if spec_has_id(acc, deps[j].id) {
        spec_scan_deps(deps, j + 1, acc, added)
    } else if spec_dep_kind_bytes(deps[j]).len() < 4 {
        None
    } else {
        spec_scan_deps(deps, j + 1, acc.push((deps[j].id, spec_dep_fourcc(deps[j]))), true)
    }
}

/// One round over the assets from `a` on: the dependencies of each asset
/// whose new id is found so far are scanned, in order.
pub open spec fn spec_scan_assets(assets: Seq<ExternAssetEntry>, a: int, acc: Seq<DepView>, added: bool) -> Option<(Seq<DepView>, bool)>
    decreases assets.len() - a,
{
    if a >= assets.len() || a < 0 {
        Some((acc, added))
    } else if spec_has_id(acc, assets[a].new_id) {
        match spec_scan_deps(assets[a].dependencies@, 0, acc, added) {
            Some((acc2, added2)) => spec_scan_assets(assets, a + 1, acc2, added2),
            None => None,
        }
    } else {
        spec_scan_assets(assets, a + 1, acc, added)
    }
}

/// The ids of every dependency of every asset, asset by asset.
pub open spec fn spec_all_dep_ids(assets: Seq<ExternAssetEntry>) -> Seq<u32>
    decreases assets.len(),
{
    if assets.len() == 0 {
        Seq::empty()
    } else {
        spec_all_dep_ids(assets.drop_last()) + assets.last().dependencies@.map_values(
            |d: ExternAssetDependency| d.id,
        )
    }
}

/// How many of `ids` are not found yet.
pub open spec fn spec_missing(ids: Seq<u32>, acc: Seq<DepView>) -> nat
    decreases ids.len(),
{
    if ids.len() == 0 {
        0
    } else {
        spec_missing(ids.drop_last(), acc) + if spec_has_id(acc, ids.last()) {
            0nat
        } else {
            1nat
        }
    }
}

/// The dependencies found from `acc` on: rounds over the assets until one
/// adds nothing. `None` where a round would add a dependency whose kind has
/// fewer than four bytes.
pub open spec fn spec_closure(assets: Seq<ExternAssetEntry>, acc: Seq<DepView>) -> Option<Seq<DepView>>
    decreases spec_missing(spec_all_dep_ids(assets), acc),
{
    match spec_scan_assets(assets, 0, acc, false) {
        None => None,
        Some((acc2, added)) => if !added {
            Some(acc)
        } else {
            proof {
                lemma_round_progress(assets, acc);
            }
            spec_closure(assets, acc2)
        },
    }
}

/// The dependencies a model starts with: its ANCS, then its CMDL.
pub open spec fn spec_model_roots(ancs: u32, cmdl: u32) -> Seq<DepView> {
    seq![(ancs, seq![0x41u8, 0x4Eu8, 0x43u8, 0x53u8]), (cmdl, seq![0x43u8, 0x4Du8, 0x44u8, 0x4Cu8])]
}

/// Found ids stay found as more are found.
proof fn lemma_has_id_grows(acc: Seq<DepView>, more: Seq<DepView>, id: u32)
    requires
        spec_has_id(acc, id),
    ensures
        spec_has_id(acc + more, id),
{
    let k = choose|k: int| 0 <= k < acc.len() && acc[k].0 == id;
    assert((acc + more)[k] == acc[k]);
}

/// Scanning only adds to what was found, and where it adds something it
/// says so.
proof fn lemma_scan_deps_grows(deps: Seq<ExternAssetDependency>, j: int, acc: Seq<DepView>, added: bool)
    requires
        spec_scan_deps(deps, j, acc, added) is Some,
    ensures
        ({
            let (acc2, added2) = spec_scan_deps(deps, j, acc, added)->0;
            &&& acc2.len() >= acc.len()
            &&& acc2.subrange(0, acc.len() as int) == acc
            &&& (added2 <==> (added || acc2.len() > acc.len()))
            &&& (acc2.len() > acc.len() ==> exists|k: int|
                j <= k < deps.len() && !spec_has_id(acc, #[trigger] deps[k].id) && spec_has_id(acc2, deps[k].id))
        }),
    decreases deps.len() - j,
{
    if j >= deps.len() || j < 0 {
        assert(acc.subrange(0, acc.len() as int) =~= acc);
    } else if spec_has_id(acc, deps[j].id) {
        lemma_scan_deps_grows(deps, j + 1, acc, added);
    } else {
        let acc1 = acc.push((deps[j].id, spec_dep_fourcc(deps[j])));
        lemma_scan_deps_grows(deps, j + 1, acc1, true);
        let (acc2, added2) = spec_scan_deps(deps, j, acc, added)->0;
        assert(acc2.subrange(0, acc1.len() as int) == acc1);
        assert(acc2.subrange(0, acc.len() as int) =~= acc) by {
            assert(acc1.subrange(0, acc.len() as int) =~= acc);
            assert(acc2.subrange(0, acc.len() as int) =~= acc1.subrange(0, acc.len() as int));
        }
        assert(spec_has_id(acc1, deps[j].id)) by {
            assert(acc1[acc.len() as int].0 == deps[j].id);
        }
        assert(spec_has_id(acc2, deps[j].id)) by {
            assert(acc2.subrange(0, acc1.len() as int) == acc1);
            assert(acc2[acc.len() as int] == acc1[acc.len() as int]);
        }
    }
}

/// A round only adds to what was found, and where it adds something it
/// found a dependency of some asset that was missing.
proof fn lemma_scan_assets_grows(assets: Seq<ExternAssetEntry>, a: int, acc: Seq<DepView>, added: bool)
    requires
        spec_scan_assets(assets, a, acc, added) is Some,
    ensures
        ({
            let (acc2, added2) = spec_scan_assets(assets, a, acc, added)->0;
            &&& acc2.len() >= acc.len()
            &&& acc2.subrange(0, acc.len() as int) == acc
            &&& (added2 <==> (added || acc2.len() > acc.len()))
            &&& (acc2.len() > acc.len() ==> exists|b: int, k: int|
                a <= b < assets.len() && 0 <= k < assets[b].dependencies@.len() && !spec_has_id(
                    acc,
                    #[trigger] assets[b].dependencies@[k].id,
                ) && spec_has_id(acc2, assets[b].dependencies@[k].id))
        }),
    decreases assets.len() - a,
{
    if a >= assets.len() || a < 0 {
        assert(acc.subrange(0, acc.len() as int) =~= acc);
    } else if spec_has_id(acc, assets[a].new_id) {
        let deps = assets[a].dependencies@;
        lemma_scan_deps_grows(deps, 0, acc, added);
        let (acc1, added1) = spec_scan_deps(deps, 0, acc, added)->0;
        lemma_scan_assets_grows(assets, a + 1, acc1, added1);
        let (acc2, added2) = spec_scan_assets(assets, a, acc, added)->0;
        assert(acc2.subrange(0, acc.len() as int) =~= acc) by {
            assert(acc2.subrange(0, acc1.len() as int) == acc1);
            assert(acc1.subrange(0, acc.len() as int) == acc);
            assert(acc2.subrange(0, acc.len() as int) =~= acc1.subrange(0, acc.len() as int));
        }
        if acc2.len() > acc.len() {
            if acc1.len() > acc.len() {
                let k = choose|k: int|
                    0 <= k < deps.len() && !spec_has_id(acc, #[trigger] deps[k].id) && spec_has_id(acc1, deps[k].id);
                lemma_has_id_grows(acc1, acc2.subrange(acc1.len() as int, acc2.len() as int), deps[k].id);
                assert(acc1 + acc2.subrange(acc1.len() as int, acc2.len() as int) =~= acc2);
                assert(assets[a].dependencies@[k].id == deps[k].id);
            } else {
                let (b, k) = choose|b: int, k: int|
                    a + 1 <= b < assets.len() && 0 <= k < assets[b].dependencies@.len() && !spec_has_id(
                        acc1,
                        #[trigger] assets[b].dependencies@[k].id,
                    ) && spec_has_id(acc2, assets[b].dependencies@[k].id);
                assert(acc1 =~= acc) by {
                    assert(acc1.subrange(0, acc.len() as int) == acc);
                }
            }
        }
    } else {
        lemma_scan_assets_grows(assets, a + 1, acc, added);
    }
}

/// Every dependency id of every asset is among all the dependency ids.
proof fn lemma_dep_id_listed(assets: Seq<ExternAssetEntry>, b: int, k: int)
    requires
        0 <= b < assets.len(),
        0 <= k < assets[b].dependencies@.len(),
    ensures
        spec_all_dep_ids(assets).contains(assets[b].dependencies@[k].id),
    decreases assets.len(),
{
    let last = assets.last().dependencies@.map_values(|d: ExternAssetDependency| d.id);
    let init = spec_all_dep_ids(assets.drop_last());
    if b == assets.len() - 1 {
        assert(last[k] == assets[b].dependencies@[k].id);
        assert((init + last)[init.len() + k] == last[k]);
    } else {
        lemma_dep_id_listed(assets.drop_last(), b, k);
        let i = choose|i: int| 0 <= i < init.len() && init[i] == assets[b].dependencies@[k].id;
        assert((init + last)[i] == init[i]);
    }
}

/// Finding more never raises the number missing; finding one of the
/// listed ids that was missing lowers it.
proof fn lemma_missing_shrinks(ids: Seq<u32>, acc: Seq<DepView>, acc2: Seq<DepView>, x: u32)
    requires
        forall|id: u32| spec_has_id(acc, id) ==> spec_has_id(acc2, id),
    ensures
        spec_missing(ids, acc2) <= spec_missing(ids, acc),
        ids.contains(x) && !spec_has_id(acc, x) && spec_has_id(acc2, x) ==> spec_missing(ids, acc2) < spec_missing(
            ids,
            acc,
        ),
    decreases ids.len(),
{
    if ids.len() > 0 {
        lemma_missing_shrinks(ids.drop_last(), acc, acc2, x);
        if ids.contains(x) && !spec_has_id(acc, x) && spec_has_id(acc2, x) {
            if ids.last() != x {
                let i = choose|i: int| 0 <= i < ids.len() && ids[i] == x;
                assert(ids.drop_last()[i] == x);
            }
        }
    }
}

/// A round that adds something lowers the number of dependency ids still
/// missing.
pub proof fn lemma_round_progress(assets: Seq<ExternAssetEntry>, acc: Seq<DepView>)
    requires
        spec_scan_assets(assets, 0, acc, false) matches Some((acc2, added)) && added,
    ensures
        spec_scan_assets(assets, 0, acc, false) matches Some((acc2, added)) && spec_missing(
            spec_all_dep_ids(assets),
            acc2,
        ) < spec_missing(spec_all_dep_ids(assets), acc),
{
    lemma_scan_assets_grows(assets, 0, acc, false);
    let (acc2, added) = spec_scan_assets(assets, 0, acc, false)->0;
    let (b, k) = choose|b: int, k: int|
        0 <= b < assets.len() && 0 <= k < assets[b].dependencies@.len() && !spec_has_id(
            acc,
            #[trigger] assets[b].dependencies@[k].id,
        ) && spec_has_id(acc2, assets[b].dependencies@[k].id);
    let x = assets[b].dependencies@[k].id;
    lemma_dep_id_listed(assets, b, k);
    assert forall|id: u32| spec_has_id(acc, id) implies spec_has_id(acc2, id) by {
        lemma_has_id_grows(acc, acc2.subrange(acc.len() as int, acc2.len() as int), id);
        assert(acc + acc2.subrange(acc.len() as int, acc2.len() as int) =~= acc2);
    }
    lemma_missing_shrinks(spec_all_dep_ids(assets), acc, acc2, x);
}

/// Dependencies found, as ids and kinds.
pub open spec fn dep_views(acc: Seq<(u32, FourCC)>) -> Seq<DepView> {
    acc.map_values(|p: (u32, FourCC)| (p.0, p.1@))
}

/// Whether an id is among the dependencies found.
fn has_id(acc: &Vec<(u32, FourCC)>, id: u32) -> (r: bool)
    ensures
        r == spec_has_id(dep_views(acc@), id),
{
    let mut k: usize = 0;
    while k < acc.len()
        invariant
            0 <= k <= acc@.len(),
            forall|m: int| 0 <= m < k ==> acc@[m].0 != id,
        decreases acc@.len() - k,
    {
        if acc[k].0 == id {
            assert(dep_views(acc@)[k as int].0 == id);
            return true;
        }
        k = k + 1;
    }
    proof {
        assert forall|m: int| 0 <= m < dep_views(acc@).len() implies dep_views(acc@)[m].0 != id by {
            assert(dep_views(acc@)[m].0 == acc@[m].0);
        }
    }
    false
}

/// The kind of a dependency: the first four bytes of its name.
fn dep_fourcc(d: &ExternAssetDependency) -> (r: FourCC)
    requires
        spec_dep_kind_bytes(*d).len() >= 4,
    ensures
        r@ == spec_dep_fourcc(*d),
{
    let b = d.fourcc.as_str().as_bytes();
    let r = FourCC([b[0], b[1], b[2], b[3]]);
    assert(r@ =~= spec_dep_fourcc(*d));
    r
}

/// The number of bytes of a dependency's kind name.
fn kind_len(d: &ExternAssetDependency) -> (r: usize)
    ensures
        r == spec_dep_kind_bytes(*d).len(),
{
    d.fourcc.as_str().as_bytes().len()
}

/// Scans an asset's dependencies (see `spec_scan_deps`); `None` leaves what
/// was found partly updated.
fn scan_deps(deps: &Vec<ExternAssetDependency>, acc: &mut Vec<(u32, FourCC)>, added_before: bool) -> (r: Option<bool>)
    ensures
        r matches Some(b) ==> spec_scan_deps(deps@, 0, dep_views(old(acc)@), added_before) == Some((dep_views(final(acc)@), b)),
        r is None ==> spec_scan_deps(deps@, 0, dep_views(old(acc)@), added_before) is None,
{
    let ghost target = spec_scan_deps(deps@, 0, dep_views(acc@), added_before);
    let mut added = added_before;
    let mut j: usize = 0;
    while j < deps.len()
        invariant
            0 <= j <= deps@.len(),
            target == spec_scan_deps(deps@, 0, dep_views(old(acc)@), added_before),
            spec_scan_deps(deps@, j as int, dep_views(acc@), added) == target,
        decreases deps@.len() - j,
    {
        let d = &deps[j];
        if !has_id(acc, d.id) {
            if kind_len(d) < 4 {
                assert(*d == deps@[j as int]);
                assert(spec_scan_deps(deps@, j as int, dep_views(acc@), added) is None);
                return None;
            }
            let f = dep_fourcc(d);
            let ghost before = dep_views(acc@);
            acc.push((d.id, f));
            assert(dep_views(acc@) =~= before.push((deps@[j as int].id, spec_dep_fourcc(deps@[j as int]))));
            added = true;
        }
        j = j + 1;
    }
    Some(added)
}

/// One round over the assets (see `spec_scan_assets`).
fn scan_round(assets: &Vec<ExternAssetEntry>, acc: &mut Vec<(u32, FourCC)>) -> (r: Option<bool>)
    ensures
        r matches Some(b) ==> spec_scan_assets(assets@, 0, dep_views(old(acc)@), false) == Some((dep_views(final(acc)@), b)),
        r is None ==> spec_scan_assets(assets@, 0, dep_views(old(acc)@), false) is None,
{
    let ghost target = spec_scan_assets(assets@, 0, dep_views(acc@), false);
    let mut added = false;
    let mut a: usize = 0;
    while a < assets.len()
        invariant
            0 <= a <= assets@.len(),
            target == spec_scan_assets(assets@, 0, dep_views(old(acc)@), false),
            spec_scan_assets(assets@, a as int, dep_views(acc@), added) == target,
        decreases assets@.len() - a,
    {
        let e = &assets[a];
        if has_id(acc, e.new_id) {
            match scan_deps(&e.dependencies, acc, added) {
                Some(b) => {
                    added = b;
                },
                None => {
                    return None;
                },
            }
        }
        a = a + 1;
    }
    Some(added)
}

/// The assets a model needs: its ANCS and CMDL, then every dependency
/// found by rounds over the assets until a round finds nothing new (see
/// `spec_closure`); `None` where a dependency to be added has a kind name of
/// fewer than four bytes.
pub fn model_dependencies(ancs: u32, cmdl: u32, assets: &Vec<ExternAssetEntry>) -> (r: Option<Vec<(u32, FourCC)>>)
    ensures
        match r {
            Some(v) => spec_closure(assets@, spec_model_roots(ancs, cmdl)) == Some(dep_views(v@)),
            None => spec_closure(assets@, spec_model_roots(ancs, cmdl)) is None,
        },
{
    let mut acc: Vec<(u32, FourCC)> = Vec::new();
    acc.push((ancs, FourCC([0x41u8, 0x4Eu8, 0x43u8, 0x53u8])));
    acc.push((cmdl, FourCC([0x43u8, 0x4Du8, 0x44u8, 0x4Cu8])));
    let ghost target = spec_closure(assets@, spec_model_roots(ancs, cmdl));
    proof {
        assert(dep_views(acc@) =~= spec_model_roots(ancs, cmdl));
    }
    loop
        invariant
            target == spec_closure(assets@, spec_model_roots(ancs, cmdl)),
            spec_closure(assets@, dep_views(acc@)) == target,
        decreases spec_missing(spec_all_dep_ids(assets@), dep_views(acc@)),
    {
        let ghost before = dep_views(acc@);
        let added = match scan_round(assets, &mut acc) {
            Some(b) => b,
            None => {
                return None;
            },
        };
        if !added {
            proof {
                lemma_scan_assets_grows(assets@, 0, before, false);
                assert(dep_views(acc@) =~= before) by {
                    assert(dep_views(acc@).subrange(0, before.len() as int) == before);
                }
                assert(spec_scan_assets(assets@, 0, before, false) == Some((before, false)));
                assert(spec_closure(assets@, before) == Some(before));
            }
            return Some(acc);
        }
        proof {
            lemma_round_progress(assets@, before);
        }
    }
}

/// What rounds stop on holds every dependency of every asset it holds: a
/// round that adds nothing finds, for each asset whose new id is found, each
/// of its dependencies found.
pub proof fn lemma_closure_closed(assets: Seq<ExternAssetEntry>, acc: Seq<DepView>)
    requires
        spec_closure(assets, acc) is Some,
    ensures
        ({
            let r = spec_closure(assets, acc)->0;
            forall|b: int, k: int|
                0 <= b < assets.len() && spec_has_id(r, assets[b].new_id) && 0 <= k
                    < assets[b].dependencies@.len() ==> spec_has_id(r, #[trigger] assets[b].dependencies@[k].id)
        }),
    decreases spec_missing(spec_all_dep_ids(assets), acc),
{
    let (acc2, added) = spec_scan_assets(assets, 0, acc, false)->0;
    if added {
        lemma_round_progress(assets, acc);
        lemma_closure_closed(assets, acc2);
    } else {
        lemma_scan_assets_grows(assets, 0, acc, false);
        assert(acc2 =~= acc) by {
            assert(acc2.subrange(0, acc.len() as int) == acc);
        }
        lemma_quiet_round_closed(assets, 0, acc);
    }
}

/// A round from `a` on that adds nothing leaves every dependency of every
/// later asset whose new id is found already found.
proof fn lemma_quiet_round_closed(assets: Seq<ExternAssetEntry>, a: int, acc: Seq<DepView>)
    requires
        0 <= a,
        spec_scan_assets(assets, a, acc, false) == Some((acc, false)),
    ensures
        forall|b: int, k: int|
            a <= b < assets.len() && spec_has_id(acc, assets[b].new_id) && 0 <= k
                < assets[b].dependencies@.len() ==> spec_has_id(acc, #[trigger] assets[b].dependencies@[k].id),
    decreases assets.len() - a,
{
    if a < assets.len() {
        if spec_has_id(acc, assets[a].new_id) {
            let deps = assets[a].dependencies@;
            lemma_scan_deps_grows(deps, 0, acc, false);
            let (acc1, added1) = spec_scan_deps(deps, 0, acc, false)->0;
            lemma_scan_assets_grows(assets, a + 1, acc1, added1);
            assert(acc1 =~= acc) by {
                assert(acc1.subrange(0, acc.len() as int) == acc);
            }
            lemma_quiet_deps(deps, 0, acc);
            lemma_quiet_round_closed(assets, a + 1, acc);
        } else {
            lemma_quiet_round_closed(assets, a + 1, acc);
        }
    }
}

/// Scanning dependencies from `j` on that adds nothing means each of them was
/// found already.
proof fn lemma_quiet_deps(deps: Seq<ExternAssetDependency>, j: int, acc: Seq<DepView>)
    requires
        0 <= j,
        spec_scan_deps(deps, j, acc, false) == Some((acc, false)),
    ensures
        forall|k: int| j <= k < deps.len() ==> spec_has_id(acc, #[trigger] deps[k].id),
    decreases deps.len() - j,
{
    if j < deps.len() {
        if spec_has_id(acc, deps[j].id) {
            lemma_quiet_deps(deps, j + 1, acc);
        } else {
            let acc1 = acc.push((deps[j].id, spec_dep_fourcc(deps[j])));
            lemma_scan_deps_grows(deps, j + 1, acc1, true);
        }
    }
}


/// The decimal digits of `n` as ASCII bytes, most significant first, as
/// `format!("{}", n)` writes them.
pub open spec fn spec_decimal(n: nat) -> Seq<u8>
    decreases n,
{
    if n < 10 {
        seq![(48 + n) as u8]
    } else {
        spec_decimal(n / 10).push((48 + n % 10) as u8)
    }
}

/// The decimal digits of `n` as ASCII bytes.
pub fn decimal_bytes(n: u32) -> (r: Vec<u8>)
    ensures
        r@ == spec_decimal(n as nat),
    decreases n,
{
    if n < 10 {
        let mut v: Vec<u8> = Vec::new();
        v.push(48u8 + n as u8);
        assert(v@ =~= spec_decimal(n as nat));
        v
    } else {
        let mut v = decimal_bytes(n / 10);
        v.push(48u8 + (n % 10) as u8);
        v
    }
}

/// Whether `needle` stands in `hay` from index `k` on.
pub open spec fn spec_contains_at(hay: Seq<u8>, needle: Seq<u8>, k: int) -> bool {
    0 <= k && k + needle.len() <= hay.len() && hay.subrange(k, k + needle.len()) == needle
}

/// Whether `needle` stands somewhere in `hay`.
pub open spec fn spec_contains_bytes(hay: Seq<u8>, needle: Seq<u8>) -> bool {
    exists|k: int| spec_contains_at(hay, needle, k)
}

/// Whether `needle` stands in `hay` from index `k` on.
fn bytes_at(hay: &[u8], needle: &[u8], k: usize) -> (r: bool)
    requires
        k + needle@.len() <= hay@.len(),
    ensures
        r == spec_contains_at(hay@, needle@, k as int),
{
    let mut j: usize = 0;
    while j < needle.len()
        invariant
            k + needle@.len() <= hay@.len(),
            hay@.len() == hay.len(),
            0 <= j <= needle@.len(),
            forall|m: int| 0 <= m < j ==> hay@[k + m] == needle@[m],
        decreases needle@.len() - j,
    {
        if hay[k + j] != needle[j] {
            assert(hay@.subrange(k as int, k + needle@.len())[j as int] != needle@[j as int]);
            return false;
        }
        j = j + 1;
    }
    assert(hay@.subrange(k as int, k + needle@.len()) =~= needle@);
    true
}

/// Whether `needle` stands somewhere in `hay`.
pub fn contains_bytes(hay: &[u8], needle: &[u8]) -> (r: bool)
    ensures
        r == spec_contains_bytes(hay@, needle@),
{
    if needle.len() > hay.len() {
        return false;
    }
    let last = hay.len() - needle.len();
    let mut k: usize = 0;
    loop
        invariant
            last == hay@.len() - needle@.len(),
            0 <= k <= last,
            forall|m: int| 0 <= m < k ==> !spec_contains_at(hay@, needle@, m),
        decreases last - k,
    {
        if bytes_at(hay, needle, k) {
            return true;
        }
        if k == last {
            assert forall|m: int| !spec_contains_at(hay@, needle@, m) by {
                if 0 <= m <= k {
                }
            }
            return false;
        }
        k = k + 1;
    }
}

/// The file of an asset: the first of the names that holds the asset's id
/// written in decimal.
pub fn asset_file_for(id: u32, names: &Vec<Vec<u8>>) -> (r: Option<usize>)
    ensures
        match r {
            Some(i) => i < names@.len() && spec_contains_bytes(names@[i as int]@, spec_decimal(id as nat))
                && forall|j: int| 0 <= j < i ==> !spec_contains_bytes(#[trigger] names@[j]@, spec_decimal(id as nat)),
            None => forall|j: int| 0 <= j < names@.len() ==> !spec_contains_bytes(#[trigger] names@[j]@, spec_decimal(id as nat)),
        },
{
    let digits = decimal_bytes(id);
    let mut i: usize = 0;
    while i < names.len()
        invariant
            0 <= i <= names@.len(),
            digits@ == spec_decimal(id as nat),
            forall|j: int| 0 <= j < i ==> !spec_contains_bytes(#[trigger] names@[j]@, spec_decimal(id as nat)),
        decreases names@.len() - i,
    {
        if contains_bytes(names[i].as_slice(), digits.as_slice()) {
            return Some(i);
        }
        i = i + 1;
    }
    None
}

/// Where the last '.' of `name`'s first `n` bytes is, if there is one.
pub open spec fn spec_last_dot(name: Seq<u8>, n: int) -> Option<int>
    decreases n,
{
    if n <= 0 {
        None
    } else if name[n - 1] == 46 {
        Some(n - 1)
    } else {
        spec_last_dot(name, n - 1)
    }
}

/// The kind of an asset file, from its name's extension: the first four
/// bytes after the last '.'; `None` where the name has no '.', or fewer than
/// four bytes follow the last one.
pub fn extension_fourcc(name: &[u8]) -> (r: Option<FourCC>)
    ensures
        match spec_last_dot(name@, name@.len() as int) {
            Some(d) => if d + 5 <= name@.len() {
                r matches Some(f) && f@ == name@.subrange(d + 1, d + 5)
            } else {
                r is None
            },
            None => r is None,
        },
{
    let mut n: usize = name.len();
    while n > 0
        invariant
            0 <= n <= name@.len(),
            spec_last_dot(name@, name@.len() as int) == spec_last_dot(name@, n as int),
        decreases n,
    {
        if name[n - 1] == 46u8 {
            let d = n - 1;
            if name.len() - d < 5 {
                return None;
            }
            let f = FourCC([name[d + 1], name[d + 2], name[d + 3], name[d + 4]]);
            assert(f@ =~= name@.subrange(d + 1, d + 5));
            return Some(f);
        }
        n = n - 1;
    }
    None
}

} // verus!
