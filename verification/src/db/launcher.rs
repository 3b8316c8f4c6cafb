//! The launcher store: named launcher groups, each with a sort key.

use vstd::prelude::*;
use crate::db::{Tables, TablesView, has_launcher};
use crate::error::OneClickLaunchError;
use crate::seqs::{lemma_filter_push, lemma_insert_contains, lemma_push_contains, lemma_take_push};

verus! {

/// One launcher group as the store holds it.
#[derive(Debug, PartialEq, Eq)]
pub struct Launcher {
    pub id: i64,
    pub name: String,
    pub sort: i32,
}

/// The mathematical value of a `Launcher`.
pub struct LauncherView {
    pub id: i64,
    pub name: Seq<char>,
    pub sort: i32,
}

impl View for Launcher {
    type V = LauncherView;

    open spec fn view(&self) -> LauncherView {
        LauncherView { id: self.id, name: self.name@, sort: self.sort }
    }
}

impl Clone for Launcher {
    fn clone(&self) -> (copy: Self)
        ensures
            copy@ == self@,
    {
        Launcher { id: self.id, name: self.name.clone(), sort: self.sort }
    }
}

/// The values of a run of launcher rows.
pub open spec fn launcher_views(rows: Seq<Launcher>) -> Seq<LauncherView> {
    rows.map_values(|row: Launcher| row@)
}

/// The order in which launchers are listed: smaller sort key first, and
/// among equal sort keys the larger id first.
pub open spec fn lists_before(a: LauncherView, b: LauncherView) -> bool {
    a.sort < b.sort || (a.sort == b.sort && a.id > b.id)
}

/// The largest sort key among `launchers`; the smallest `i32` if there is
/// none.
pub open spec fn max_sort(launchers: Seq<LauncherView>) -> int
    decreases launchers.len(),
{
    if launchers.len() == 0 {
        i32::MIN as int
    } else {
        let rest = max_sort(launchers.drop_last());
        if launchers.last().sort > rest {
            launchers.last().sort as int
        } else {
            rest
        }
    }
}

/// The sort key of a launcher created with `sort`: the given key, or one
/// more than the largest key in use, or 1 in an empty store.
pub open spec fn new_sort_key(launchers: Seq<LauncherView>, sort: Option<i32>) -> int {
    match sort {
        Some(key) => key as int,
        None => if launchers.len() == 0 {
            1
        } else {
            max_sort(launchers) + 1
        },
    }
}

/// Whether the store can take one more launcher with the sort key asked
/// for: an identifier and a sort key are left.
pub open spec fn can_create(tables: TablesView, sort: Option<i32>) -> bool {
    tables.next_launcher_id < i64::MAX && new_sort_key(tables.launchers, sort) <= i32::MAX
}

/// The launchers with the one called `id`, if any, renamed to `name`.
pub open spec fn renamed(launchers: Seq<LauncherView>, id: i64, name: Seq<char>) -> Seq<
    LauncherView,
> {
    Seq::new(
        launchers.len(),
        |i: int|
            if launchers[i].id == id {
                LauncherView { id: launchers[i].id, name: name, sort: launchers[i].sort }
            } else {
                launchers[i]
            },
    )
}

/// The launchers with the one called `id`, if any, given the sort key
/// `sort`.
pub open spec fn resorted(launchers: Seq<LauncherView>, id: i64, sort: i32) -> Seq<LauncherView> {
    Seq::new(
        launchers.len(),
        |i: int|
            if launchers[i].id == id {
                LauncherView { id: launchers[i].id, name: launchers[i].name, sort: sort }
            } else {
                launchers[i]
            },
    )
}

/// The launchers but the one called `id`.
pub open spec fn without_launcher(launchers: Seq<LauncherView>, id: i64) -> Seq<LauncherView> {
    launchers.filter(|row: LauncherView| row.id != id)
}

impl TablesView {
    /// The tables after a launcher called `name` with sort key `sort` was
    /// inserted under the next identifier.
    pub open spec fn with_launcher(self, name: Seq<char>, sort: int) -> TablesView {
        TablesView {
            launchers: self.launchers.push(
                LauncherView { id: self.next_launcher_id, name: name, sort: sort as i32 },
            ),
            next_launcher_id: (self.next_launcher_id + 1) as i64,
            ..self
        }
    }

    /// The tables with other launcher rows and everything else unchanged.
    pub open spec fn with_launchers(self, launchers: Seq<LauncherView>) -> TablesView {
        TablesView { launchers: launchers, ..self }
    }
}

/// `max_sort` is a sort key in use and no key in use is larger.
pub proof fn lemma_max_sort(launchers: Seq<LauncherView>)
    requires
        launchers.len() > 0,
    ensures
        exists|i: int| 0 <= i < launchers.len() && (#[trigger] launchers[i]).sort == max_sort(launchers),
        forall|i: int| 0 <= i < launchers.len() ==> (#[trigger] launchers[i]).sort <= max_sort(launchers),
    decreases launchers.len(),
{
    let rest = launchers.drop_last();
    if rest.len() > 0 {
        lemma_max_sort(rest);
        let k = choose|k: int| 0 <= k < rest.len() && (#[trigger] rest[k]).sort == max_sort(rest);
        assert(launchers[k] == rest[k]);
        assert forall|i: int| 0 <= i < launchers.len() implies (#[trigger] launchers[i]).sort
            <= max_sort(launchers) by {
            if i < rest.len() {
                assert(launchers[i] == rest[i]);
            }
        }
        if launchers.last().sort > max_sort(rest) {
            assert(launchers[launchers.len() - 1].sort == max_sort(launchers));
        } else {
            assert(launchers[k].sort == max_sort(launchers));
        }
    } else {
        assert(max_sort(rest) == i32::MIN);
        assert(launchers[0] == launchers.last());
    }
}

/// A launcher created without a sort key goes behind all others: every
/// launcher that was there is listed before it.
pub proof fn lemma_created_lists_last(tables: TablesView, name: Seq<char>)
    requires
        tables.valid(),
        can_create(tables, None),
    ensures
        forall|i: int|
            0 <= i < tables.launchers.len() ==> lists_before(
                #[trigger] tables.launchers[i],
                tables.with_launcher(name, new_sort_key(tables.launchers, None)).launchers.last(),
            ),
{
    if tables.launchers.len() > 0 {
        lemma_max_sort(tables.launchers);
    }
}

/// Inserts a launcher called `launcher_name` and returns its identifier.
/// Without a `sort` the launcher goes behind all others. Fails with
/// `StorageError`, changing nothing, when no identifier or sort key is left.
pub fn create(executor: &mut Tables, launcher_name: &str, sort: Option<i32>) -> (created: Result<
    i64,
    OneClickLaunchError,
>)
    requires
        old(executor).wf(),
    ensures
        final(executor).wf(),
        created is Ok <==> can_create(old(executor)@, sort),
        match created {
            Ok(id) => id == old(executor)@.next_launcher_id && final(executor)@ == old(
                executor,
            )@.with_launcher(launcher_name@, new_sort_key(old(executor)@.launchers, sort)),
            Err(e) => e == OneClickLaunchError::StorageError && final(executor)@ == old(
                executor,
            )@,
        },
{
    if executor.next_launcher_id == i64::MAX {
        return Err(OneClickLaunchError::StorageError);
    }
    let key: i32 = match sort {
        Some(key) => key,
        None => {
            let n = executor.launchers.len();
            if n == 0 {
                1
            } else {
                let mut largest: i32 = i32::MIN;
                let mut i: usize = 0;
                while i < n
                    invariant
                        n == executor.launchers.len(),
                        i <= n,
                        largest == max_sort(launcher_views(executor.launchers@).take(i as int)),
                    decreases n - i,
                {
                    proof {
                        lemma_take_push(launcher_views(executor.launchers@), i as int);
                        assert(launcher_views(executor.launchers@).take(i + 1).drop_last()
                            =~= launcher_views(executor.launchers@).take(i as int));
                    }
                    if executor.launchers[i].sort > largest {
                        largest = executor.launchers[i].sort;
                    }
                    i = i + 1;
                }
                proof {
                    assert(launcher_views(executor.launchers@).take(n as int) =~= launcher_views(
                        executor.launchers@,
                    ));
                }
                if largest == i32::MAX {
                    return Err(OneClickLaunchError::StorageError);
                }
                largest + 1
            }
        },
    };
    let id = executor.next_launcher_id;
    let name = launcher_name.to_owned();
    let ghost before = executor@;
    executor.launchers.push(Launcher { id, name, sort: key });
    executor.next_launcher_id = id + 1;
    proof {
        assert(executor@.launchers =~= before.launchers.push(
            LauncherView { id: id, name: launcher_name@, sort: key },
        ));
        assert(executor@ == before.with_launcher(launcher_name@, key as int));
    }
    Ok(id)
}

/// Gives the launcher called `id` the name `name`. Fails with `NotFound`,
/// changing nothing, when there is no such launcher.
pub fn modify_launcher_name(executor: &mut Tables, id: i64, name: &str) -> (done: Result<
    (),
    OneClickLaunchError,
>)
    requires
        old(executor).wf(),
    ensures
        final(executor).wf(),
        done is Ok <==> has_launcher(old(executor)@.launchers, id),
        match done {
            Ok(_) => final(executor)@ == old(executor)@.with_launchers(
                renamed(old(executor)@.launchers, id, name@),
            ),
            Err(e) => e == OneClickLaunchError::NotFound && final(executor)@ == old(executor)@,
        },
{
    let n = executor.launchers.len();
    let mut i: usize = 0;
    while i < n
        invariant
            n == executor.launchers.len(),
            i <= n,
            forall|k: int| 0 <= k < i ==> (#[trigger] executor.launchers@[k]).id != id,
            *executor == *old(executor),
            executor.wf(),
        decreases n - i,
    {
        if executor.launchers[i].id == id {
            let ghost before = executor@;
            let row = Launcher { id, name: name.to_owned(), sort: executor.launchers[i].sort };
            executor.launchers.set(i, row);
            proof {
                assert(before.launchers[i as int].id == id);
                assert forall|k: int| 0 <= k < before.launchers.len() && k != i implies (
                #[trigger] before.launchers[k]).id != id by {
                    if k < i {
                        assert(before.launchers[k].id < before.launchers[i as int].id);
                    } else {
                        assert(before.launchers[i as int].id < before.launchers[k].id);
                    }
                }
                assert(executor@.launchers =~= renamed(before.launchers, id, name@));
                assert(executor@.resources == before.resources);
                assert(executor@.settings == before.settings);
                assert forall|k: int| 0 <= k < executor@.launchers.len() implies (
                #[trigger] executor@.launchers[k]).id == before.launchers[k].id by {}
            }
            return Ok(());
        }
        i = i + 1;
    }
    proof {
        assert forall|k: int| 0 <= k < executor@.launchers.len() implies (
        #[trigger] executor@.launchers[k]).id != id by {
            assert(executor.launchers@[k].id != id);
        }
    }
    Err(OneClickLaunchError::NotFound)
}

/// Gives the launcher called `id` the sort key `sort`. Where there is no
/// such launcher nothing changes.
pub fn modify_launcher_sort(executor: &mut Tables, id: i64, sort: i32)
    requires
        old(executor).wf(),
    ensures
        final(executor).wf(),
        final(executor)@ == old(executor)@.with_launchers(
            resorted(old(executor)@.launchers, id, sort),
        ),
{
    let n = executor.launchers.len();
    let mut i: usize = 0;
    while i < n
        invariant
            n == executor.launchers.len(),
            i <= n,
            forall|k: int| 0 <= k < i ==> (#[trigger] executor.launchers@[k]).id != id,
            *executor == *old(executor),
            executor.wf(),
        decreases n - i,
    {
        if executor.launchers[i].id == id {
            let ghost before = executor@;
            let row = Launcher { id, name: executor.launchers[i].name.clone(), sort };
            executor.launchers.set(i, row);
            proof {
                assert(before.launchers[i as int].id == id);
                assert forall|k: int| 0 <= k < before.launchers.len() && k != i implies (
                #[trigger] before.launchers[k]).id != id by {
                    if k < i {
                        assert(before.launchers[k].id < before.launchers[i as int].id);
                    } else {
                        assert(before.launchers[i as int].id < before.launchers[k].id);
                    }
                }
                assert(executor@.launchers =~= resorted(before.launchers, id, sort));
                assert(executor@.resources == before.resources);
                assert(executor@.settings == before.settings);
                assert forall|k: int| 0 <= k < executor@.launchers.len() implies (
                #[trigger] executor@.launchers[k]).id == before.launchers[k].id by {}
            }
            return ;
        }
        i = i + 1;
    }
    proof {
        assert(executor@.launchers =~= resorted(executor@.launchers, id, sort)) by {
            assert forall|k: int| 0 <= k < executor@.launchers.len() implies (
            #[trigger] executor@.launchers[k]).id != id by {
                assert(executor.launchers@[k].id != id);
            }
        }
    }
}

/// Removes the launcher called `id`, if there is one. Its resources are not
/// touched: removing them is the caller's part of the same transaction.
pub fn delete_by_id(executor: &mut Tables, id: i64)
    requires
        old(executor).wf(),
    ensures
        final(executor).wf(),
        final(executor)@ == old(executor)@.with_launchers(
            without_launcher(old(executor)@.launchers, id),
        ),
{
    let ghost before = executor@;
    let ghost keep = |row: LauncherView| row.id != id;
    let n = executor.launchers.len();
    let mut kept: Vec<Launcher> = Vec::new();
    let mut i: usize = 0;
    proof {
        assert(before.launchers.take(0) =~= Seq::<LauncherView>::empty());
        reveal(Seq::filter);
        assert(launcher_views(kept@) =~= before.launchers.take(0).filter(keep));
    }
    while i < n
        invariant
            n == executor.launchers.len(),
            i <= n,
            executor@ == before,
            before.valid(),
            keep == |row: LauncherView| row.id != id,
            launcher_views(kept@) == before.launchers.take(i as int).filter(keep),
            forall|k: int|
                0 <= k < kept.len() ==> exists|m: int|
                    0 <= m < i && before.launchers[m] == #[trigger] kept@[k]@,
            forall|a: int, b: int|
                0 <= a < b < kept.len() ==> (#[trigger] kept@[a]).id < (#[trigger] kept@[b]).id,
        decreases n - i,
    {
        proof {
            lemma_take_push(before.launchers, i as int);
            lemma_filter_push(before.launchers.take(i as int), before.launchers[i as int], keep);
        }
        if executor.launchers[i].id != id {
            let row = executor.launchers[i].clone();
            let ghost prior = kept@;
            kept.push(row);
            proof {
                assert(launcher_views(kept@) =~= launcher_views(prior).push(row@));
                assert(before.launchers[i as int] == kept@[kept.len() - 1]@);
                assert forall|a: int, b: int| 0 <= a < b < kept.len() implies (
                #[trigger] kept@[a]).id < (#[trigger] kept@[b]).id by {
                    if b == kept.len() - 1 {
                        let m = choose|m: int| 0 <= m < i && before.launchers[m] == kept@[a]@;
                        assert(before.launchers[m].id < before.launchers[i as int].id);
                    }
                }
            }
        }
        i = i + 1;
    }
    proof {
        assert(before.launchers.take(n as int) =~= before.launchers);
    }
    executor.launchers = kept;
    proof {
        assert(executor@.launchers == without_launcher(before.launchers, id));
        assert(executor@.resources == before.resources);
        assert(executor@.settings == before.settings);
        assert forall|k: int| 0 <= k < executor@.launchers.len() implies (
        #[trigger] executor@.launchers[k]).id < executor@.next_launcher_id by {
            assert(executor@.launchers[k] == executor.launchers@[k]@);
            let m = choose|m: int| 0 <= m < n && before.launchers[m] == executor.launchers@[k]@;
            assert(before.launchers[m].id < before.next_launcher_id);
        }
        assert forall|a: int, b: int| 0 <= a < b < executor@.launchers.len() implies (
        #[trigger] executor@.launchers[a]).id < (#[trigger] executor@.launchers[b]).id by {
            assert(executor.launchers@[a].id < executor.launchers@[b].id);
        }
    }
}

/// The launcher among `launchers` that is called `id`.
pub open spec fn launcher_of(launchers: Seq<LauncherView>, id: i64) -> LauncherView {
    launchers[choose|i: int| 0 <= i < launchers.len() && (#[trigger] launchers[i]).id == id]
}

/// Where identifiers are distinct, the launcher called by the identifier of
/// a row is that row.
pub proof fn lemma_launcher_of(launchers: Seq<LauncherView>, i: int)
    requires
        forall|a: int, b: int|
            0 <= a < b < launchers.len() ==> (#[trigger] launchers[a]).id < (
            #[trigger] launchers[b]).id,
        0 <= i < launchers.len(),
    ensures
        launcher_of(launchers, launchers[i].id) == launchers[i],
{
    let id = launchers[i].id;
    let k = choose|k: int| 0 <= k < launchers.len() && (#[trigger] launchers[k]).id == id;
    if k < i {
        assert(launchers[k].id < launchers[i].id);
    } else if i < k {
        assert(launchers[i].id < launchers[k].id);
    }
}

/// The launcher called `id`, or `NotFound` when there is none.
pub fn find_by_id(executor: &Tables, id: i64) -> (found: Result<Launcher, OneClickLaunchError>)
    requires
        executor.wf(),
    ensures
        found is Ok <==> has_launcher(executor@.launchers, id),
        match found {
            Ok(row) => row@ == launcher_of(executor@.launchers, id) && row.id == id,
            Err(e) => e == OneClickLaunchError::NotFound,
        },
{
    let n = executor.launchers.len();
    let mut i: usize = 0;
    while i < n
        invariant
            n == executor.launchers.len(),
            i <= n,
            forall|k: int| 0 <= k < i ==> (#[trigger] executor.launchers@[k]).id != id,
            executor.wf(),
        decreases n - i,
    {
        if executor.launchers[i].id == id {
            let row = executor.launchers[i].clone();
            proof {
                assert(executor@.launchers[i as int] == row@);
                lemma_launcher_of(executor@.launchers, i as int);
            }
            return Ok(row);
        }
        i = i + 1;
    }
    proof {
        assert forall|k: int| 0 <= k < executor@.launchers.len() implies (
        #[trigger] executor@.launchers[k]).id != id by {
            assert(executor.launchers@[k].id != id);
        }
    }
    Err(OneClickLaunchError::NotFound)
}

/// Whether `listing` runs in listing order: smaller sort keys first, and
/// among equal sort keys larger identifiers first.
pub open spec fn in_listing_order(listing: Seq<LauncherView>) -> bool {
    forall|i: int, j: int|
        0 <= i < j < listing.len() ==> lists_before(#[trigger] listing[i], #[trigger] listing[j])
}

/// Whether `listing` holds exactly the rows of `rows`, as many as there
/// are, in listing order.
pub open spec fn is_listing(rows: Seq<LauncherView>, listing: Seq<LauncherView>) -> bool {
    &&& listing.len() == rows.len()
    &&& in_listing_order(listing)
    &&& forall|row: LauncherView| #[trigger] listing.contains(row) <==> rows.contains(row)
}

/// The launchers of `rows` in listing order.
pub open spec fn listing_of(rows: Seq<LauncherView>) -> Seq<LauncherView> {
    choose|listing: Seq<LauncherView>| is_listing(rows, listing)
}

/// Two listings of the same rows agree at every place.
proof fn lemma_listings_agree(
    rows: Seq<LauncherView>,
    a: Seq<LauncherView>,
    b: Seq<LauncherView>,
    i: int,
)
    requires
        is_listing(rows, a),
        is_listing(rows, b),
        0 <= i < a.len(),
    ensures
        a[i] == b[i],
    decreases i,
{
    assert forall|j: int| 0 <= j < i implies a[j] == b[j] by {
        lemma_listings_agree(rows, a, b, j);
    }
    assert(a.contains(a[i]));
    assert(b.contains(a[i]));
    let k = choose|k: int| 0 <= k < b.len() && b[k] == a[i];
    assert(b.contains(b[i]));
    assert(a.contains(b[i]));
    let m = choose|m: int| 0 <= m < a.len() && a[m] == b[i];
    if k < i {
        assert(a[k] == b[k]);
        assert(lists_before(a[k], a[i]));
    } else if k > i {
        assert(lists_before(b[i], b[k]));
        if m < i {
            assert(a[m] == b[m]);
            assert(lists_before(b[m], b[i]));
        } else if m > i {
            assert(lists_before(a[i], a[m]));
        }
    }
}

/// The rows of a store have one listing only.
pub proof fn lemma_listing_unique(
    rows: Seq<LauncherView>,
    a: Seq<LauncherView>,
    b: Seq<LauncherView>,
)
    requires
        is_listing(rows, a),
        is_listing(rows, b),
    ensures
        a == b,
{
    assert forall|i: int| 0 <= i < a.len() implies a[i] == b[i] by {
        lemma_listings_agree(rows, a, b, i);
    }
    assert(a =~= b);
}

/// In a listing, a launcher with a smaller sort key stands before one
/// with a larger sort key, and of two launchers with the same sort key the
/// one with the larger identifier stands first.
pub proof fn lemma_listed_in_order(
    rows: Seq<LauncherView>,
    listing: Seq<LauncherView>,
    a: LauncherView,
    b: LauncherView,
)
    requires
        is_listing(rows, listing),
        rows.contains(a),
        rows.contains(b),
        lists_before(a, b),
    ensures
        exists|i: int, j: int|
            0 <= i < j < listing.len() && #[trigger] listing[i] == a && #[trigger] listing[j] == b,
{
    assert(listing.contains(a));
    assert(listing.contains(b));
    let i = choose|i: int| 0 <= i < listing.len() && listing[i] == a;
    let j = choose|j: int| 0 <= j < listing.len() && listing[j] == b;
    if j < i {
        assert(lists_before(listing[j], listing[i]));
    }
    assert(listing[i] == a && listing[j] == b);
}

/// Whether `a` is listed before `b`.
fn precedes(a: &Launcher, b: &Launcher) -> (before: bool)
    ensures
        before == lists_before(a@, b@),
{
    a.sort < b.sort || (a.sort == b.sort && a.id > b.id)
}

/// Inserting `row` at `p` keeps the listing order when everything before
/// `p` is listed before `row` and `row` is listed before what stands at `p`.
proof fn lemma_insert_keeps_order(listing: Seq<LauncherView>, p: int, row: LauncherView)
    requires
        in_listing_order(listing),
        0 <= p <= listing.len(),
        forall|k: int| 0 <= k < p ==> lists_before(#[trigger] listing[k], row),
        p < listing.len() ==> lists_before(row, listing[p]),
    ensures
        in_listing_order(listing.insert(p, row)),
{
    let t = listing.insert(p, row);
    assert forall|a: int, b: int| 0 <= a < b < t.len() implies lists_before(
        #[trigger] t[a],
        #[trigger] t[b],
    ) by {
        if b < p {
            assert(t[a] == listing[a] && t[b] == listing[b]);
        } else if b == p {
            assert(t[a] == listing[a]);
        } else if a < p {
            assert(t[a] == listing[a] && t[b] == listing[b - 1]);
            if b - 1 > p {
                assert(lists_before(listing[p], listing[b - 1]));
            }
        } else if a == p {
            assert(t[b] == listing[b - 1]);
            if b - 1 > p {
                assert(lists_before(listing[p], listing[b - 1]));
            }
        } else {
            assert(t[a] == listing[a - 1] && t[b] == listing[b - 1]);
        }
    }
}

/// Puts `row` into `listing` at its place in listing order.
fn insert_in_order(listing: &mut Vec<Launcher>, row: Launcher)
    requires
        in_listing_order(launcher_views(old(listing)@)),
        forall|k: int| 0 <= k < old(listing).len() ==> (#[trigger] old(listing)@[k]).id != row.id,
    ensures
        final(listing).len() == old(listing).len() + 1,
        in_listing_order(launcher_views(final(listing)@)),
        exists|p: int|
            0 <= p <= old(listing).len() && launcher_views(final(listing)@) == launcher_views(
                old(listing)@,
            ).insert(p, row@),
{
    let ghost prior = launcher_views(listing@);
    let mut p: usize = 0;
    while p < listing.len() && precedes(&listing[p], &row)
        invariant
            p <= listing.len(),
            *listing == *old(listing),
            forall|k: int| 0 <= k < p ==> lists_before(#[trigger] prior[k], row@),
            prior == launcher_views(listing@),
        decreases listing.len() - p,
    {
        assert(prior[p as int] == listing@[p as int]@);
        p = p + 1;
    }
    proof {
        if p < listing.len() {
            assert(prior[p as int] == listing@[p as int]@);
            assert(listing@[p as int].id != row.id);
        }
        lemma_insert_keeps_order(prior, p as int, row@);
    }
    listing.insert(p, row);
    proof {
        assert(launcher_views(listing@) =~= prior.insert(p as int, row@));
    }
}

/// All launchers in listing order: by sort key ascending, then by
/// identifier descending.
pub fn query(executor: &Tables) -> (listing: Vec<Launcher>)
    requires
        executor.wf(),
    ensures
        is_listing(executor@.launchers, launcher_views(listing@)),
        launcher_views(listing@) == listing_of(executor@.launchers),
{
    let ghost rows = executor@.launchers;
    let n = executor.launchers.len();
    let mut listing: Vec<Launcher> = Vec::new();
    let mut i: usize = 0;
    proof {
        assert(rows.take(0) =~= Seq::<LauncherView>::empty());
        assert(launcher_views(listing@) =~= Seq::<LauncherView>::empty());
    }
    while i < n
        invariant
            n == executor.launchers.len(),
            i <= n,
            executor.wf(),
            rows == executor@.launchers,
            listing.len() == i,
            in_listing_order(launcher_views(listing@)),
            forall|row: LauncherView| #[trigger]
                launcher_views(listing@).contains(row) <==> rows.take(i as int).contains(row),
        decreases n - i,
    {
        let row = executor.launchers[i].clone();
        let ghost prior = launcher_views(listing@);
        proof {
            assert(row@ == rows[i as int]);
            assert forall|k: int| 0 <= k < listing.len() implies (#[trigger] listing@[k]).id
                != row.id by {
                assert(prior[k] == listing@[k]@);
                assert(prior.contains(prior[k]));
                let m = choose|m: int|
                    0 <= m < rows.take(i as int).len() && rows.take(i as int)[m] == prior[k];
                assert(rows[m].id < rows[i as int].id);
            }
        }
        insert_in_order(&mut listing, row);
        proof {
            let p = choose|p: int|
                0 <= p <= prior.len() && launcher_views(listing@) == prior.insert(p, row@);
            lemma_insert_contains(prior, p, row@);
            lemma_take_push(rows, i as int);
            lemma_push_contains(rows.take(i as int), rows[i as int]);
        }
        i = i + 1;
    }
    proof {
        assert(rows.take(n as int) =~= rows);
        assert(is_listing(rows, launcher_views(listing@)));
        lemma_listing_unique(rows, launcher_views(listing@), listing_of(rows));
    }
    listing
}

} // verus!
