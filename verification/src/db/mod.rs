//! The persistence engine: three tables that change only through
//! transactions, so that a failed operation leaves no trace.

pub mod launcher;
pub mod launcher_resource;
pub mod settings;

use vstd::prelude::*;
use crate::db::launcher::{
    Launcher, LauncherView, launcher_views, without_launcher,
};
use crate::db::launcher_resource::{
    LauncherResource, LauncherResourceView, Selection, oldest_first,
    resource_views, selected,
};
use crate::db::settings::{Settings, SettingsView, distinct_keys, settings_views};
use crate::error::OneClickLaunchError;
use crate::text::str_equal;

verus! {

/// The three tables and the identifiers that the next insertions will get.
/// A value of this type is the working state of one transaction.
pub struct Tables {
    launchers: Vec<Launcher>,
    resources: Vec<LauncherResource>,
    settings: Vec<Settings>,
    next_launcher_id: i64,
    next_resource_id: i64,
}

/// The mathematical value of the tables: rows in the order in which they
/// were inserted.
pub struct TablesView {
    pub launchers: Seq<LauncherView>,
    pub resources: Seq<LauncherResourceView>,
    pub settings: Seq<SettingsView>,
    pub next_launcher_id: i64,
    pub next_resource_id: i64,
}

/// Whether some launcher among `launchers` has the identifier `id`.
pub open spec fn has_launcher(launchers: Seq<LauncherView>, id: i64) -> bool {
    exists|i: int| 0 <= i < launchers.len() && (#[trigger] launchers[i]).id == id
}

impl TablesView {
    /// Identifiers grow with the order of insertion and lie below the next
    /// identifier to hand out, which is positive; no settings key occurs
    /// twice.
    pub open spec fn valid(self) -> bool {
        &&& self.next_launcher_id >= 1
        &&& self.next_resource_id >= 1
        &&& launcher_ids_grow(self.launchers)
        &&& forall|i: int|
            0 <= i < self.launchers.len() ==> (#[trigger] self.launchers[i]).id
                < self.next_launcher_id
        &&& oldest_first(self.resources)
        &&& forall|i: int|
            0 <= i < self.resources.len() ==> (#[trigger] self.resources[i]).id
                < self.next_resource_id
        &&& distinct_keys(self.settings)
    }

    /// Every resource is owned by a launcher that exists.
    pub open spec fn consistent(self) -> bool {
        all_owned(self.launchers, self.resources)
    }

    /// The empty store, whose first identifiers are 1.
    pub open spec fn empty() -> TablesView {
        TablesView {
            launchers: Seq::empty(),
            resources: Seq::empty(),
            settings: Seq::empty(),
            next_launcher_id: 1,
            next_resource_id: 1,
        }
    }
}

impl View for Tables {
    type V = TablesView;

    closed spec fn view(&self) -> TablesView {
        TablesView {
            launchers: launcher_views(self.launchers@),
            resources: resource_views(self.resources@),
            settings: settings_views(self.settings@),
            next_launcher_id: self.next_launcher_id,
            next_resource_id: self.next_resource_id,
        }
    }
}

impl Tables {
    /// The invariant of the tables, which every operation keeps.
    pub open spec fn wf(&self) -> bool {
        self@.valid()
    }

    /// Tables without rows.
    pub fn new() -> (tables: Tables)
        ensures
            tables@ == TablesView::empty(),
            tables.wf(),
    {
        let tables = Tables {
            launchers: Vec::new(),
            resources: Vec::new(),
            settings: Vec::new(),
            next_launcher_id: 1,
            next_resource_id: 1,
        };
        assert(tables@.launchers =~= Seq::empty());
        assert(tables@.resources =~= Seq::empty());
        assert(tables@.settings =~= Seq::empty());
        tables
    }
}

impl Clone for Tables {
    fn clone(&self) -> (copy: Self)
        ensures
            copy@ == self@,
    {
        let launchers = self.launchers.clone();
        let resources = self.resources.clone();
        let settings = self.settings.clone();
        proof {
            assert(launcher_views(launchers@) =~= launcher_views(self.launchers@)) by {
                assert forall|i: int| 0 <= i < launchers.len() implies launchers@[i]@
                    == self.launchers@[i]@ by {
                    assert(cloned::<Launcher>(self.launchers@[i], launchers@[i]));
                }
            }
            assert(resource_views(resources@) =~= resource_views(self.resources@)) by {
                assert forall|i: int| 0 <= i < resources.len() implies resources@[i]@
                    == self.resources@[i]@ by {
                    assert(cloned::<LauncherResource>(self.resources@[i], resources@[i]));
                }
            }
            assert(settings_views(settings@) =~= settings_views(self.settings@)) by {
                assert forall|i: int| 0 <= i < settings.len() implies settings@[i]@
                    == self.settings@[i]@ by {
                    assert(cloned::<Settings>(self.settings@[i], settings@[i]));
                }
            }
        }
        Tables {
            launchers,
            resources,
            settings,
            next_launcher_id: self.next_launcher_id,
            next_resource_id: self.next_resource_id,
        }
    }
}

/// The committed state of the store. It changes only when a transaction
/// commits, so an operation that fails leaves it as it was.
pub struct DatabaseManager {
    tables: Tables,
}

impl View for DatabaseManager {
    type V = TablesView;

    closed spec fn view(&self) -> TablesView {
        self.tables@
    }
}

impl DatabaseManager {
    /// The invariant of the committed state: the tables are valid and no
    /// resource is without its launcher.
    pub open spec fn wf(&self) -> bool {
        self@.valid() && self@.consistent()
    }

    /// A store without rows.
    pub fn new() -> (db: DatabaseManager)
        ensures
            db@ == TablesView::empty(),
            db.wf(),
    {
        DatabaseManager { tables: Tables::new() }
    }

    /// The committed tables, for reading.
    pub fn tables(&self) -> (tables: &Tables)
        ensures
            tables@ == self@,
    {
        &self.tables
    }

    /// Starts a transaction: a working copy of the committed tables.
    pub fn begin(&self) -> (tx: Tables)
        ensures
            tx@ == self@,
    {
        self.tables.clone()
    }

    /// Commits a transaction: its tables become the committed state.
    pub fn commit(&mut self, tx: Tables)
        requires
            tx.wf(),
            tx@.consistent(),
        ensures
            final(self)@ == tx@,
            final(self).wf(),
    {
        self.tables = tx;
    }
}

/// Whether identifiers grow along `launchers`.
pub open spec fn launcher_ids_grow(launchers: Seq<LauncherView>) -> bool {
    forall|i: int, j: int|
        0 <= i < j < launchers.len() ==> (#[trigger] launchers[i]).id < (#[trigger] launchers[j]).id
}

/// The identifier that follows `last`, the last identifier in use: one
/// more than it, and at least 1.
pub open spec fn following_id(last: Option<i64>) -> int {
    match last {
        Some(id) => if id >= 0 {
            id + 1
        } else {
            1
        },
        None => 1,
    }
}

/// The last identifier among `launchers`, if there is a row.
pub open spec fn last_launcher_id(launchers: Seq<LauncherView>) -> Option<i64> {
    if launchers.len() == 0 {
        None
    } else {
        Some(launchers.last().id)
    }
}

/// The last identifier among `resources`, if there is a row.
pub open spec fn last_resource_id(resources: Seq<LauncherResourceView>) -> Option<i64> {
    if resources.len() == 0 {
        None
    } else {
        Some(resources.last().id)
    }
}

/// Whether rows read from storage can make up a store: identifiers grow
/// along each table and leave room for a next one, no settings key occurs
/// twice, and every resource has its launcher.
pub open spec fn loadable(
    launchers: Seq<LauncherView>,
    resources: Seq<LauncherResourceView>,
    settings: Seq<SettingsView>,
) -> bool {
    &&& launcher_ids_grow(launchers)
    &&& oldest_first(resources)
    &&& following_id(last_launcher_id(launchers)) <= i64::MAX
    &&& following_id(last_resource_id(resources)) <= i64::MAX
    &&& distinct_keys(settings)
    &&& all_owned(launchers, resources)
}

/// The store that holds the given rows.
pub open spec fn loaded(
    launchers: Seq<LauncherView>,
    resources: Seq<LauncherResourceView>,
    settings: Seq<SettingsView>,
) -> TablesView {
    TablesView {
        launchers: launchers,
        resources: resources,
        settings: settings,
        next_launcher_id: following_id(last_launcher_id(launchers)) as i64,
        next_resource_id: following_id(last_resource_id(resources)) as i64,
    }
}

/// Whether identifiers grow along `launchers`.
fn check_launcher_ids(launchers: &Vec<Launcher>) -> (ok: bool)
    ensures
        ok == launcher_ids_grow(launcher_views(launchers@)),
{
    let n = launchers.len();
    let mut i: usize = 1;
    while i < n
        invariant
            n == launchers.len(),
            1 <= i,
            forall|a: int, b: int|
                0 <= a < b < i && b < n ==> (#[trigger] launchers@[a]).id < (#[trigger] launchers@[b]).id,
        decreases n - i,
    {
        if launchers[i - 1].id >= launchers[i].id {
            proof {
                assert(launcher_views(launchers@)[i - 1].id >= launcher_views(launchers@)[i as int].id);
            }
            return false;
        }
        proof {
            assert forall|a: int, b: int| 0 <= a < b < i + 1 && b < n implies (
            #[trigger] launchers@[a]).id < (#[trigger] launchers@[b]).id by {
                if b == i && a < i - 1 {
                    assert(launchers@[a].id < launchers@[i - 1].id);
                }
            }
        }
        i = i + 1;
    }
    proof {
        let views = launcher_views(launchers@);
        assert forall|a: int, b: int| 0 <= a < b < views.len() implies (#[trigger] views[a]).id < (
        #[trigger] views[b]).id by {
            assert(launchers@[a].id < launchers@[b].id);
        }
    }
    true
}

/// Whether identifiers grow along `resources`.
fn check_resource_ids(resources: &Vec<LauncherResource>) -> (ok: bool)
    ensures
        ok == oldest_first(resource_views(resources@)),
{
    let n = resources.len();
    let mut i: usize = 1;
    while i < n
        invariant
            n == resources.len(),
            1 <= i,
            forall|a: int, b: int|
                0 <= a < b < i && b < n ==> (#[trigger] resources@[a]).id < (#[trigger] resources@[b]).id,
        decreases n - i,
    {
        if resources[i - 1].id >= resources[i].id {
            proof {
                assert(resource_views(resources@)[i - 1].id >= resource_views(resources@)[i as int].id);
            }
            return false;
        }
        proof {
            assert forall|a: int, b: int| 0 <= a < b < i + 1 && b < n implies (
            #[trigger] resources@[a]).id < (#[trigger] resources@[b]).id by {
                if b == i && a < i - 1 {
                    assert(resources@[a].id < resources@[i - 1].id);
                }
            }
        }
        i = i + 1;
    }
    proof {
        let views = resource_views(resources@);
        assert forall|a: int, b: int| 0 <= a < b < views.len() implies (#[trigger] views[a]).id < (
        #[trigger] views[b]).id by {
            assert(resources@[a].id < resources@[b].id);
        }
    }
    true
}

/// Whether no key occurs twice in `settings`.
fn check_keys(settings: &Vec<Settings>) -> (ok: bool)
    ensures
        ok == distinct_keys(settings_views(settings@)),
{
    let n = settings.len();
    let mut j: usize = 0;
    while j < n
        invariant
            n == settings.len(),
            j <= n,
            forall|a: int, b: int|
                0 <= a < b < j ==> (#[trigger] settings@[a]).key@ != (#[trigger] settings@[b]).key@,
        decreases n - j,
    {
        let mut i: usize = 0;
        while i < j
            invariant
                n == settings.len(),
                i <= j < n,
                forall|a: int| 0 <= a < i ==> (#[trigger] settings@[a]).key@ != settings@[j as int].key@,
            decreases j - i,
        {
            if str_equal(settings[i].key.as_str(), settings[j].key.as_str()) {
                proof {
                    let views = settings_views(settings@);
                    assert(views[i as int].key == views[j as int].key);
                }
                return false;
            }
            i = i + 1;
        }
        j = j + 1;
    }
    proof {
        let views = settings_views(settings@);
        assert forall|a: int, b: int| 0 <= a < b < views.len() implies (#[trigger] views[a]).key != (
        #[trigger] views[b]).key by {
            assert(settings@[a].key@ != settings@[b].key@);
        }
    }
    true
}

/// Whether every one of `resources` is owned by one of `launchers`.
fn check_owners(launchers: &Vec<Launcher>, resources: &Vec<LauncherResource>) -> (ok: bool)
    ensures
        ok == all_owned(launcher_views(launchers@), resource_views(resources@)),
{
    let n = resources.len();
    let m = launchers.len();
    let mut i: usize = 0;
    while i < n
        invariant
            n == resources.len(),
            m == launchers.len(),
            i <= n,
            forall|k: int|
                0 <= k < i ==> has_launcher(
                    launcher_views(launchers@),
                    (#[trigger] resource_views(resources@)[k]).launcher_id,
                ),
        decreases n - i,
    {
        let owner = resources[i].launcher_id;
        let mut j: usize = 0;
        let mut found = false;
        while j < m && !found
            invariant
                m == launchers.len(),
                j <= m,
                found ==> has_launcher(launcher_views(launchers@), owner),
                !found ==> forall|k: int| 0 <= k < j ==> (#[trigger] launchers@[k]).id != owner,
            decreases m - j + if found { 0int } else { 1int },
        {
            if launchers[j].id == owner {
                proof {
                    assert(launcher_views(launchers@)[j as int].id == owner);
                }
                found = true;
            } else {
                j = j + 1;
            }
        }
        if !found {
            proof {
                let views = launcher_views(launchers@);
                assert forall|k: int| 0 <= k < views.len() implies (#[trigger] views[k]).id
                    != owner by {
                    assert(launchers@[k].id != owner);
                }
                assert(resource_views(resources@)[i as int].launcher_id == owner);
            }
            return false;
        }
        i = i + 1;
    }
    true
}

impl DatabaseManager {
    /// Commits a transaction if it leaves no resource without its launcher.
    /// Otherwise the transaction is dropped, the committed state stays as
    /// it was, and `StorageError` is returned.
    pub fn try_commit(&mut self, tx: Tables) -> (done: Result<(), OneClickLaunchError>)
        requires
            old(self).wf(),
            tx.wf(),
        ensures
            final(self).wf(),
            done is Ok <==> tx@.consistent(),
            match done {
                Ok(_) => final(self)@ == tx@,
                Err(e) => e == OneClickLaunchError::StorageError && final(self)@ == old(self)@,
            },
    {
        if check_owners(&tx.launchers, &tx.resources) {
            self.commit(tx);
            Ok(())
        } else {
            Err(OneClickLaunchError::StorageError)
        }
    }

    /// A store that holds the given rows, as they were read from storage in
    /// the order of their identifiers. Fails with `StorageError` when the
    /// rows are not `loadable`.
    pub fn from_rows(
        launchers: Vec<Launcher>,
        resources: Vec<LauncherResource>,
        settings: Vec<Settings>,
    ) -> (opened: Result<DatabaseManager, OneClickLaunchError>)
        ensures
            opened is Ok <==> loadable(
                launcher_views(launchers@),
                resource_views(resources@),
                settings_views(settings@),
            ),
            match opened {
                Ok(db) => db.wf() && db@ == loaded(
                    launcher_views(launchers@),
                    resource_views(resources@),
                    settings_views(settings@),
                ),
                Err(e) => e == OneClickLaunchError::StorageError,
            },
    {
        if !check_launcher_ids(&launchers) || !check_resource_ids(&resources) || !check_keys(
            &settings,
        ) || !check_owners(&launchers, &resources) {
            return Err(OneClickLaunchError::StorageError);
        }
        let mut next_launcher_id: i64 = 1;
        if launchers.len() > 0 {
            let last = launchers[launchers.len() - 1].id;
            proof {
                assert(launcher_views(launchers@).last().id == last);
            }
            if last == i64::MAX {
                return Err(OneClickLaunchError::StorageError);
            }
            if last >= 0 {
                next_launcher_id = last + 1;
            }
        }
        let mut next_resource_id: i64 = 1;
        if resources.len() > 0 {
            let last = resources[resources.len() - 1].id;
            proof {
                assert(resource_views(resources@).last().id == last);
            }
            if last == i64::MAX {
                return Err(OneClickLaunchError::StorageError);
            }
            if last >= 0 {
                next_resource_id = last + 1;
            }
        }
        let tables = Tables { launchers, resources, settings, next_launcher_id, next_resource_id };
        proof {
            let l = tables@.launchers;
            let r = tables@.resources;
            assert forall|i: int| 0 <= i < l.len() implies (#[trigger] l[i]).id
                < next_launcher_id by {
                if i < l.len() - 1 {
                    assert(l[i].id < l[l.len() - 1].id);
                }
            }
            assert forall|i: int| 0 <= i < r.len() implies (#[trigger] r[i]).id
                < next_resource_id by {
                if i < r.len() - 1 {
                    assert(r[i].id < r[r.len() - 1].id);
                }
            }
        }
        Ok(DatabaseManager { tables })
    }
}

/// Whether every row of `resources` is owned by a launcher among
/// `launchers`.
pub open spec fn all_owned(launchers: Seq<LauncherView>, resources: Seq<LauncherResourceView>) -> bool {
    forall|i: int|
        0 <= i < resources.len() ==> has_launcher(launchers, (#[trigger] resources[i]).launcher_id)
}

/// Launchers that keep their identifiers keep their resources.
pub proof fn lemma_owned_same_ids(
    before: Seq<LauncherView>,
    after: Seq<LauncherView>,
    resources: Seq<LauncherResourceView>,
)
    requires
        all_owned(before, resources),
        after.len() == before.len(),
        forall|i: int| 0 <= i < before.len() ==> (#[trigger] after[i]).id == before[i].id,
    ensures
        all_owned(after, resources),
{
    assert forall|i: int| 0 <= i < resources.len() implies has_launcher(
        after,
        (#[trigger] resources[i]).launcher_id,
    ) by {
        let k = choose|k: int|
            0 <= k < before.len() && (#[trigger] before[k]).id == resources[i].launcher_id;
        assert(after[k].id == resources[i].launcher_id);
    }
}

/// One more launcher leaves every resource with its owner.
pub proof fn lemma_owned_more_launchers(
    launchers: Seq<LauncherView>,
    added: LauncherView,
    resources: Seq<LauncherResourceView>,
)
    requires
        all_owned(launchers, resources),
    ensures
        all_owned(launchers.push(added), resources),
        has_launcher(launchers.push(added), added.id),
{
    let after = launchers.push(added);
    assert(after[launchers.len() as int].id == added.id);
    assert forall|i: int| 0 <= i < resources.len() implies has_launcher(
        after,
        (#[trigger] resources[i]).launcher_id,
    ) by {
        let k = choose|k: int|
            0 <= k < launchers.len() && (#[trigger] launchers[k]).id == resources[i].launcher_id;
        assert(after[k].id == resources[i].launcher_id);
    }
}

/// Fewer resources leave every remaining resource with its owner.
pub proof fn lemma_owned_fewer_resources(
    launchers: Seq<LauncherView>,
    resources: Seq<LauncherResourceView>,
    selection: Selection,
    wanted: bool,
)
    requires
        all_owned(launchers, resources),
    ensures
        all_owned(launchers, selected(resources, selection, wanted)),
{
    let keep = |row: LauncherResourceView| selection.picks(row) == wanted;
    let kept = selected(resources, selection, wanted);
    assert forall|i: int| 0 <= i < kept.len() implies has_launcher(
        launchers,
        (#[trigger] kept[i]).launcher_id,
    ) by {
        assert(kept.contains(kept[i]));
        resources.lemma_filter_contains_rev(keep, kept[i]);
        let m = choose|m: int| 0 <= m < resources.len() && resources[m] == kept[i];
        assert(has_launcher(launchers, resources[m].launcher_id));
    }
}

/// Without a launcher and without the resources it owned, every remaining
/// resource still has its owner.
pub proof fn lemma_owned_after_cascade(
    launchers: Seq<LauncherView>,
    resources: Seq<LauncherResourceView>,
    id: i64,
)
    requires
        all_owned(launchers, resources),
    ensures
        all_owned(
            without_launcher(launchers, id),
            selected(resources, Selection::Launcher(id), false),
        ),
        forall|i: int|
            0 <= i < selected(resources, Selection::Launcher(id), false).len() ==> (
            #[trigger] selected(resources, Selection::Launcher(id), false)[i]).launcher_id != id,
{
    let keep = |row: LauncherResourceView| Selection::Launcher(id).picks(row) == false;
    let kept = selected(resources, Selection::Launcher(id), false);
    let stay = |row: LauncherView| row.id != id;
    let left = without_launcher(launchers, id);
    assert forall|i: int| 0 <= i < kept.len() implies has_launcher(
        left,
        (#[trigger] kept[i]).launcher_id,
    ) && kept[i].launcher_id != id by {
        resources.lemma_filter_pred(keep, i);
        assert(kept.contains(kept[i]));
        resources.lemma_filter_contains_rev(keep, kept[i]);
        let m = choose|m: int| 0 <= m < resources.len() && resources[m] == kept[i];
        let k = choose|k: int|
            0 <= k < launchers.len() && (#[trigger] launchers[k]).id == resources[m].launcher_id;
        assert(stay(launchers[k]));
        launchers.lemma_filter_contains(stay, k);
        let j = choose|j: int| 0 <= j < left.len() && left[j] == launchers[k];
        assert(left[j].id == kept[i].launcher_id);
    }
}

/// More resources under a launcher that exists leave every resource with
/// its owner.
pub proof fn lemma_owned_more_resources(
    launchers: Seq<LauncherView>,
    resources: Seq<LauncherResourceView>,
    added: Seq<LauncherResourceView>,
    owner: i64,
)
    requires
        all_owned(launchers, resources),
        added.len() > 0 ==> has_launcher(launchers, owner),
        forall|i: int| 0 <= i < added.len() ==> (#[trigger] added[i]).launcher_id == owner,
    ensures
        all_owned(launchers, resources + added),
{
    let all = resources + added;
    assert forall|i: int| 0 <= i < all.len() implies has_launcher(
        launchers,
        (#[trigger] all[i]).launcher_id,
    ) by {
        if i < resources.len() {
            assert(all[i] == resources[i]);
        } else {
            assert(all[i] == added[i - resources.len()]);
        }
    }
}

} // verus!
