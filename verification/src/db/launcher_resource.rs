//! The resource store: launchable targets, each owned by one launcher.

use vstd::prelude::*;
use crate::db::{Tables, TablesView, has_launcher};
use crate::error::OneClickLaunchError;
use crate::seqs::{
    lemma_filter_all, lemma_filter_none, lemma_filter_push, lemma_push_contains, lemma_take_push,
};

verus! {

/// One launchable resource as the store holds it.
#[derive(Debug, PartialEq, Eq)]
pub struct LauncherResource {
    pub id: i64,
    pub launcher_id: i64,
    pub name: String,
    pub path: String,
}

/// The mathematical value of a `LauncherResource`.
pub struct LauncherResourceView {
    pub id: i64,
    pub launcher_id: i64,
    pub name: Seq<char>,
    pub path: Seq<char>,
}

impl View for LauncherResource {
    type V = LauncherResourceView;

    open spec fn view(&self) -> LauncherResourceView {
        LauncherResourceView {
            id: self.id,
            launcher_id: self.launcher_id,
            name: self.name@,
            path: self.path@,
        }
    }
}

impl Clone for LauncherResource {
    fn clone(&self) -> (copy: Self)
        ensures
            copy@ == self@,
    {
        LauncherResource {
            id: self.id,
            launcher_id: self.launcher_id,
            name: self.name.clone(),
            path: self.path.clone(),
        }
    }
}

/// The values of a run of resource rows.
pub open spec fn resource_views(rows: Seq<LauncherResource>) -> Seq<LauncherResourceView> {
    rows.map_values(|row: LauncherResource| row@)
}

/// Name and target of a resource that is about to be created.
#[derive(Clone, Debug, PartialEq, Eq)]
pub struct CreateResourceParam {
    pub name: String,
    pub path: String,
}

/// The mathematical value of a `CreateResourceParam`.
pub struct CreateResourceParamView {
    pub name: Seq<char>,
    pub path: Seq<char>,
}

impl View for CreateResourceParam {
    type V = CreateResourceParamView;

    open spec fn view(&self) -> CreateResourceParamView {
        CreateResourceParamView { name: self.name@, path: self.path@ }
    }
}

/// The values of a run of creation parameters.
pub open spec fn param_views(items: Seq<CreateResourceParam>) -> Seq<CreateResourceParamView> {
    items.map_values(|item: CreateResourceParam| item@)
}

/// Which resource rows an operation is about.
pub enum Selection {
    /// The row with this identifier.
    Id(i64),
    /// The rows owned by this launcher.
    Launcher(i64),
    /// The rows owned by any of these launchers.
    Launchers(Seq<i64>),
    /// Every row.
    All,
}

impl Selection {
    /// Whether the selection holds `row`.
    pub open spec fn picks(self, row: LauncherResourceView) -> bool {
        match self {
            Selection::Id(id) => row.id == id,
            Selection::Launcher(launcher_id) => row.launcher_id == launcher_id,
            Selection::Launchers(ids) => ids.contains(row.launcher_id),
            Selection::All => true,
        }
    }
}

/// A `Selection` as the store operations take it.
pub enum Selector<'a> {
    Id(i64),
    Launcher(i64),
    Launchers(&'a Vec<i64>),
    All,
}

impl<'a> View for Selector<'a> {
    type V = Selection;

    open spec fn view(&self) -> Selection {
        match self {
            Selector::Id(id) => Selection::Id(*id),
            Selector::Launcher(launcher_id) => Selection::Launcher(*launcher_id),
            Selector::Launchers(ids) => Selection::Launchers(ids@),
            Selector::All => Selection::All,
        }
    }
}

impl<'a> Selector<'a> {
    fn test(&self, row: &LauncherResource) -> (picked: bool)
        ensures
            picked == self@.picks(row@),
    {
        match self {
            Selector::Id(id) => row.id == *id,
            Selector::Launcher(launcher_id) => row.launcher_id == *launcher_id,
            Selector::Launchers(ids) => contains_id(ids, row.launcher_id),
            Selector::All => true,
        }
    }
}

/// Whether `id` occurs in `ids`.
pub fn contains_id(ids: &Vec<i64>, id: i64) -> (found: bool)
    ensures
        found == ids@.contains(id),
{
    let n = ids.len();
    let mut i: usize = 0;
    while i < n
        invariant
            n == ids.len(),
            i <= n,
            forall|k: int| 0 <= k < i ==> ids@[k] != id,
        decreases n - i,
    {
        if ids[i] == id {
            assert(ids@[i as int] == id);
            return true;
        }
        i = i + 1;
    }
    false
}

/// The rows of `resources` that `selector` picks (`wanted`) or passes over
/// (`!wanted`), in their order.
pub open spec fn selected(
    resources: Seq<LauncherResourceView>,
    selection: Selection,
    wanted: bool,
) -> Seq<LauncherResourceView> {
    resources.filter(|row: LauncherResourceView| selection.picks(row) == wanted)
}

/// Whether identifiers grow along `rows`.
pub open spec fn oldest_first(rows: Seq<LauncherResourceView>) -> bool {
    forall|i: int, j: int| 0 <= i < j < rows.len() ==> (#[trigger] rows[i]).id < (#[trigger] rows[j]).id
}

/// Whether identifiers fall along `rows`: the most recently created row
/// comes first.
pub open spec fn newest_first(rows: Seq<LauncherResourceView>) -> bool {
    forall|i: int, j: int| 0 <= i < j < rows.len() ==> (#[trigger] rows[i]).id > (#[trigger] rows[j]).id
}

/// The resources with the one called `id`, if any, renamed to `name`.
pub open spec fn renamed(resources: Seq<LauncherResourceView>, id: i64, name: Seq<char>) -> Seq<
    LauncherResourceView,
> {
    Seq::new(
        resources.len(),
        |i: int|
            if resources[i].id == id {
                LauncherResourceView {
                    id: resources[i].id,
                    launcher_id: resources[i].launcher_id,
                    name: name,
                    path: resources[i].path,
                }
            } else {
                resources[i]
            },
    )
}

/// The rows that a batch creates under `launcher_id`: one for each item, in
/// order, with consecutive identifiers from `first_id` on.
pub open spec fn created_rows(
    first_id: i64,
    launcher_id: i64,
    items: Seq<CreateResourceParamView>,
) -> Seq<LauncherResourceView> {
    Seq::new(
        items.len(),
        |k: int|
            LauncherResourceView {
                id: (first_id + k) as i64,
                launcher_id: launcher_id,
                name: items[k].name,
                path: items[k].path,
            },
    )
}

impl TablesView {
    /// The tables after one resource row for each of `items` was inserted
    /// under `launcher_id`.
    pub open spec fn with_resources(
        self,
        launcher_id: i64,
        items: Seq<CreateResourceParamView>,
    ) -> TablesView {
        TablesView {
            resources: self.resources + created_rows(self.next_resource_id, launcher_id, items),
            next_resource_id: (self.next_resource_id + items.len()) as i64,
            ..self
        }
    }

    /// The tables with other resource rows and everything else unchanged.
    pub open spec fn with_resource_rows(self, resources: Seq<LauncherResourceView>) -> TablesView {
        TablesView { resources: resources, ..self }
    }

    /// Whether `count` more resources can be inserted under `launcher_id`:
    /// nothing is asked of an empty batch; otherwise the launcher exists
    /// and enough identifiers are left.
    pub open spec fn can_take_resources(self, launcher_id: i64, count: nat) -> bool {
        count == 0 || (has_launcher(self.launchers, launcher_id) && self.next_resource_id + count
            <= i64::MAX)
    }
}

/// Whether the launcher called `id` exists.
pub fn launcher_exists(executor: &Tables, id: i64) -> (found: bool)
    ensures
        found == has_launcher(executor@.launchers, id),
{
    let n = executor.launchers.len();
    let mut i: usize = 0;
    while i < n
        invariant
            n == executor.launchers.len(),
            i <= n,
            forall|k: int| 0 <= k < i ==> (#[trigger] executor.launchers@[k]).id != id,
        decreases n - i,
    {
        if executor.launchers[i].id == id {
            assert(executor@.launchers[i as int].id == id);
            return true;
        }
        i = i + 1;
    }
    proof {
        assert forall|k: int| 0 <= k < executor@.launchers.len() implies (
        #[trigger] executor@.launchers[k]).id != id by {
            assert(executor.launchers@[k].id != id);
        }
    }
    false
}

/// Inserts one resource row for each of `items` under `launcher_id` and
/// returns the new identifiers in the order of `items`. The batch is
/// inserted whole or not at all: it fails with `NotFound` when it is not
/// empty and the launcher does not exist, and with `StorageError` when the
/// launcher exists and too few identifiers are left.
pub fn create_resources(
    executor: &mut Tables,
    launcher_id: i64,
    items: &Vec<CreateResourceParam>,
) -> (created: Result<Vec<i64>, OneClickLaunchError>)
    requires
        old(executor).wf(),
    ensures
        final(executor).wf(),
        created is Ok <==> old(executor)@.can_take_resources(launcher_id, items@.len()),
        match created {
            Ok(ids) => {
                &&& final(executor)@ == old(executor)@.with_resources(
                    launcher_id,
                    param_views(items@),
                )
                &&& ids@.len() == items@.len()
                &&& forall|k: int|
                    0 <= k < ids@.len() ==> #[trigger] ids@[k] == old(executor)@.next_resource_id
                        + k
            },
            Err(e) => {
                &&& final(executor)@ == old(executor)@
                &&& e == if has_launcher(old(executor)@.launchers, launcher_id) {
                    OneClickLaunchError::StorageError
                } else {
                    OneClickLaunchError::NotFound
                }
            },
        },
{
    let n = items.len();
    let mut ids: Vec<i64> = Vec::new();
    let ghost before = executor@;
    let ghost wanted = param_views(items@);
    if n == 0 {
        proof {
            assert(executor@.resources =~= before.resources + created_rows(
                before.next_resource_id,
                launcher_id,
                wanted,
            ));
        }
        return Ok(ids);
    }
    if !launcher_exists(executor, launcher_id) {
        return Err(OneClickLaunchError::NotFound);
    }
    let first = executor.next_resource_id;
    if n as u64 > (i64::MAX - first) as u64 {
        return Err(OneClickLaunchError::StorageError);
    }
    let mut i: usize = 0;
    while i < n
        invariant
            n == items.len(),
            i <= n,
            wanted == param_views(items@),
            before.valid(),
            first == before.next_resource_id,
            first + n <= i64::MAX,
            executor@ == before.with_resources(launcher_id, wanted.take(i as int)),
            ids@.len() == i,
            forall|k: int| 0 <= k < i ==> #[trigger] ids@[k] == first + k,
        decreases n - i,
    {
        let id = executor.next_resource_id;
        let row = LauncherResource {
            id,
            launcher_id,
            name: items[i].name.clone(),
            path: items[i].path.clone(),
        };
        let ghost mid = executor@;
        executor.resources.push(row);
        executor.next_resource_id = id + 1;
        ids.push(id);
        proof {
            assert(wanted[i as int] == items@[i as int]@);
            assert(executor@.resources =~= mid.resources.push(row@));
            assert(executor@.resources =~= before.resources + created_rows(
                first,
                launcher_id,
                wanted.take(i + 1),
            ));
        }
        i = i + 1;
    }
    proof {
        assert(wanted.take(n as int) =~= wanted);
    }
    Ok(ids)
}

/// Inserts a resource called `name` with the target `path` under
/// `launcher_id` and returns its identifier. Fails with `NotFound` when the
/// launcher does not exist and with `StorageError` when it exists and no
/// identifier is left, changing nothing.
pub fn create(executor: &mut Tables, launcher_id: i64, name: &str, path: &str) -> (created: Result<
    i64,
    OneClickLaunchError,
>)
    requires
        old(executor).wf(),
    ensures
        final(executor).wf(),
        created is Ok <==> old(executor)@.can_take_resources(launcher_id, 1),
        match created {
            Ok(id) => {
                &&& id == old(executor)@.next_resource_id
                &&& final(executor)@ == old(executor)@.with_resources(
                    launcher_id,
                    seq![CreateResourceParamView { name: name@, path: path@ }],
                )
            },
            Err(e) => {
                &&& final(executor)@ == old(executor)@
                &&& e == if has_launcher(old(executor)@.launchers, launcher_id) {
                    OneClickLaunchError::StorageError
                } else {
                    OneClickLaunchError::NotFound
                }
            },
        },
{
    let mut items: Vec<CreateResourceParam> = Vec::new();
    items.push(CreateResourceParam { name: name.to_owned(), path: path.to_owned() });
    proof {
        assert(param_views(items@) =~= seq![CreateResourceParamView { name: name@, path: path@ }]);
    }
    match create_resources(executor, launcher_id, &items) {
        Ok(ids) => Ok(ids[0]),
        Err(e) => Err(e),
    }
}

/// Gives the resource called `resource_id` the name `name`. Where there is
/// no such resource nothing changes.
pub fn modify_name(executor: &mut Tables, resource_id: i64, name: &str)
    requires
        old(executor).wf(),
    ensures
        final(executor).wf(),
        final(executor)@ == old(executor)@.with_resource_rows(
            renamed(old(executor)@.resources, resource_id, name@),
        ),
{
    let n = executor.resources.len();
    let mut i: usize = 0;
    while i < n
        invariant
            n == executor.resources.len(),
            i <= n,
            forall|k: int| 0 <= k < i ==> (#[trigger] executor.resources@[k]).id != resource_id,
            *executor == *old(executor),
            executor.wf(),
        decreases n - i,
    {
        if executor.resources[i].id == resource_id {
            let ghost before = executor@;
            let row = LauncherResource {
                id: resource_id,
                launcher_id: executor.resources[i].launcher_id,
                name: name.to_owned(),
                path: executor.resources[i].path.clone(),
            };
            executor.resources.set(i, row);
            proof {
                assert(before.resources[i as int].id == resource_id);
                assert forall|k: int| 0 <= k < before.resources.len() && k != i implies (
                #[trigger] before.resources[k]).id != resource_id by {
                    if k < i {
                        assert(before.resources[k].id < before.resources[i as int].id);
                    } else {
                        assert(before.resources[i as int].id < before.resources[k].id);
                    }
                }
                assert(executor@.resources =~= renamed(before.resources, resource_id, name@));
                assert(executor@.launchers == before.launchers);
                assert(executor@.settings == before.settings);
                assert forall|k: int| 0 <= k < executor@.resources.len() implies (
                #[trigger] executor@.resources[k]).id == before.resources[k].id by {}
            }
            return ;
        }
        i = i + 1;
    }
    proof {
        assert(executor@.resources =~= renamed(executor@.resources, resource_id, name@)) by {
            assert forall|k: int| 0 <= k < executor@.resources.len() implies (
            #[trigger] executor@.resources[k]).id != resource_id by {
                assert(executor.resources@[k].id != resource_id);
            }
        }
    }
}

/// The rows of `rows` that `selector` picks (`wanted`) or passes over
/// (`!wanted`), copied in their order.
fn select(rows: &Vec<LauncherResource>, selector: &Selector, wanted: bool) -> (out: Vec<
    LauncherResource,
>)
    requires
        oldest_first(resource_views(rows@)),
    ensures
        resource_views(out@) == selected(resource_views(rows@), selector@, wanted),
        oldest_first(resource_views(out@)),
        forall|row: LauncherResourceView| #[trigger]
            resource_views(out@).contains(row) ==> resource_views(rows@).contains(row),
{
    let ghost all = resource_views(rows@);
    let ghost keep = |row: LauncherResourceView| selector@.picks(row) == wanted;
    let n = rows.len();
    let mut out: Vec<LauncherResource> = Vec::new();
    let mut i: usize = 0;
    proof {
        assert(all.take(0) =~= Seq::<LauncherResourceView>::empty());
        reveal(Seq::filter);
        assert(resource_views(out@) =~= all.take(0).filter(keep));
    }
    while i < n
        invariant
            n == rows.len(),
            i <= n,
            all == resource_views(rows@),
            oldest_first(all),
            keep == |row: LauncherResourceView| selector@.picks(row) == wanted,
            resource_views(out@) == all.take(i as int).filter(keep),
            oldest_first(resource_views(out@)),
            forall|row: LauncherResourceView| #[trigger]
                resource_views(out@).contains(row) ==> all.take(i as int).contains(row),
        decreases n - i,
    {
        proof {
            lemma_take_push(all, i as int);
            lemma_filter_push(all.take(i as int), all[i as int], keep);
            lemma_push_contains(all.take(i as int), all[i as int]);
        }
        if selector.test(&rows[i]) == wanted {
            let row = rows[i].clone();
            let ghost prior = resource_views(out@);
            out.push(row);
            proof {
                assert(resource_views(out@) =~= prior.push(row@));
                lemma_push_contains(prior, row@);
                assert forall|a: int, b: int| 0 <= a < b < resource_views(out@).len() implies (
                #[trigger] resource_views(out@)[a]).id < (#[trigger] resource_views(out@)[b]).id by {
                    if b == prior.len() {
                        assert(prior.contains(prior[a]));
                        let m = choose|m: int|
                            0 <= m < all.take(i as int).len() && all.take(i as int)[m] == prior[a];
                        assert(all[m].id < all[i as int].id);
                    } else {
                        assert(prior[a].id < prior[b].id);
                    }
                }
            }
        }
        i = i + 1;
    }
    proof {
        assert(all.take(n as int) =~= all);
    }
    out
}

/// The rows of `rows`, copied last to first.
fn reversed(rows: &Vec<LauncherResource>) -> (out: Vec<LauncherResource>)
    ensures
        resource_views(out@) == resource_views(rows@).reverse(),
{
    let n = rows.len();
    let mut out: Vec<LauncherResource> = Vec::new();
    let mut i: usize = 0;
    while i < n
        invariant
            n == rows.len(),
            i <= n,
            out.len() == i,
            forall|k: int| 0 <= k < i ==> (#[trigger] out@[k])@ == rows@[n - 1 - k]@,
        decreases n - i,
    {
        out.push(rows[n - 1 - i].clone());
        i = i + 1;
    }
    proof {
        assert(resource_views(out@) =~= resource_views(rows@).reverse());
    }
    out
}

/// Reversing rows whose identifiers grow gives rows whose identifiers fall.
pub proof fn lemma_reverse_newest_first(rows: Seq<LauncherResourceView>)
    requires
        oldest_first(rows),
    ensures
        newest_first(rows.reverse()),
{
    let r = rows.reverse();
    assert forall|i: int, j: int| 0 <= i < j < r.len() implies (#[trigger] r[i]).id > (
    #[trigger] r[j]).id by {
        assert(rows[rows.len() - 1 - j].id < rows[rows.len() - 1 - i].id);
    }
}

/// Replaces the resource rows by `kept`, which came out of them.
fn keep_rows(executor: &mut Tables, kept: Vec<LauncherResource>)
    requires
        old(executor).wf(),
        oldest_first(resource_views(kept@)),
        forall|row: LauncherResourceView| #[trigger]
            resource_views(kept@).contains(row) ==> old(executor)@.resources.contains(row),
    ensures
        final(executor).wf(),
        final(executor)@ == old(executor)@.with_resource_rows(resource_views(kept@)),
{
    let ghost before = executor@;
    let ghost rows = resource_views(kept@);
    executor.resources = kept;
    proof {
        assert(executor@.launchers == before.launchers);
        assert(executor@.settings == before.settings);
        assert(executor@.resources == rows);
        assert forall|k: int| 0 <= k < rows.len() implies (#[trigger] rows[k]).id
            < before.next_resource_id by {
            assert(rows.contains(rows[k]));
            let m = choose|m: int| 0 <= m < before.resources.len() && before.resources[m] == rows[k];
            assert(before.resources[m].id < before.next_resource_id);
        }
    }
}

/// Removes every resource that the launcher called `launcher_id` owns.
pub fn delete_by_launcher(executor: &mut Tables, launcher_id: i64)
    requires
        old(executor).wf(),
    ensures
        final(executor).wf(),
        final(executor)@ == old(executor)@.with_resource_rows(
            selected(old(executor)@.resources, Selection::Launcher(launcher_id), false),
        ),
{
    proof {
        assert(resource_views(executor.resources@) == executor@.resources);
        assert(oldest_first(executor@.resources));
    }
    let kept = select(&executor.resources, &Selector::Launcher(launcher_id), false);
    keep_rows(executor, kept);
}

/// Removes the resource called `id`, if there is one.
pub fn delete_by_id(executor: &mut Tables, id: i64)
    requires
        old(executor).wf(),
    ensures
        final(executor).wf(),
        final(executor)@ == old(executor)@.with_resource_rows(
            selected(old(executor)@.resources, Selection::Id(id), false),
        ),
{
    proof {
        assert(resource_views(executor.resources@) == executor@.resources);
        assert(oldest_first(executor@.resources));
    }
    let kept = select(&executor.resources, &Selector::Id(id), false);
    keep_rows(executor, kept);
}

/// The resources that `selector` picks, most recently created first.
pub fn query_selected(executor: &Tables, selector: &Selector) -> (rows: Vec<LauncherResource>)
    requires
        executor.wf(),
    ensures
        resource_views(rows@) == selected(executor@.resources, selector@, true).reverse(),
        newest_first(resource_views(rows@)),
{
    proof {
        assert(resource_views(executor.resources@) == executor@.resources);
        assert(oldest_first(executor@.resources));
    }
    let picked = select(&executor.resources, selector, true);
    proof {
        lemma_reverse_newest_first(resource_views(picked@));
    }
    reversed(&picked)
}

/// The resources of the launcher called `launcher_id`, most recently
/// created first.
pub fn query_by_launcher_id(executor: &Tables, launcher_id: i64) -> (rows: Vec<LauncherResource>)
    requires
        executor.wf(),
    ensures
        resource_views(rows@) == selected(
            executor@.resources,
            Selection::Launcher(launcher_id),
            true,
        ).reverse(),
        newest_first(resource_views(rows@)),
{
    query_selected(executor, &Selector::Launcher(launcher_id))
}

/// The resources of the launchers called `launcher_ids`, most recently
/// created first; none for an empty list.
pub fn query_by_launcher_ids(executor: &Tables, launcher_ids: &Vec<i64>) -> (rows: Vec<
    LauncherResource,
>)
    requires
        executor.wf(),
    ensures
        resource_views(rows@) == selected(
            executor@.resources,
            Selection::Launchers(launcher_ids@),
            true,
        ).reverse(),
        newest_first(resource_views(rows@)),
        launcher_ids@.len() == 0 ==> rows@.len() == 0,
{
    let rows = query_selected(executor, &Selector::Launchers(launcher_ids));
    proof {
        if launcher_ids@.len() == 0 {
            let keep = |row: LauncherResourceView| Selection::Launchers(launcher_ids@).picks(row) == true;
            lemma_filter_none(executor@.resources, keep);
        }
    }
    rows
}

/// Every resource, most recently created first.
pub fn query_all(executor: &Tables) -> (rows: Vec<LauncherResource>)
    requires
        executor.wf(),
    ensures
        resource_views(rows@) == executor@.resources.reverse(),
        newest_first(resource_views(rows@)),
{
    let rows = query_selected(executor, &Selector::All);
    proof {
        let keep = |row: LauncherResourceView| Selection::All.picks(row) == true;
        lemma_filter_all(executor@.resources, keep);
    }
    rows
}

} // verus!
