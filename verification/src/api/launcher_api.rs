//! Commands on launchers and their resources. Every command that writes
//! more than one row runs in one transaction: it commits whole or leaves
//! the store as it was.

use vstd::prelude::*;
use vstd::string::*;
use rand::Rng;
use rand::distributions::Alphanumeric;
use crate::action::{Action, ActionView, action_views, push_action};
use crate::db::{
    DatabaseManager, Tables, TablesView, has_launcher, lemma_owned_after_cascade,
    lemma_owned_fewer_resources, lemma_owned_more_launchers, lemma_owned_more_resources,
    lemma_owned_same_ids,
};
use crate::db::launcher::{
    self, Launcher, LauncherView, can_create, launcher_of, launcher_views, listing_of,
    new_sort_key, renamed, resorted, without_launcher,
};
use crate::db::launcher_resource::{
    self, CreateResourceParam, CreateResourceParamView, LauncherResource, LauncherResourceView,
    Selection, created_rows, param_views, resource_views, selected,
};
use crate::error::OneClickLaunchError;
use crate::events::{EventMessage, EventMessageView};
use crate::events::types::{LauncherBasicInfoUpdatedPayload, LauncherLaunchedPayload};
use crate::seqs::{lemma_filter_all, lemma_filter_none};
use crate::text::chars_of;

verus! {

/// Whether `c` is an ASCII letter or digit.
pub open spec fn is_ascii_alphanumeric(c: char) -> bool {
    ('a' <= c && c <= 'z') || ('A' <= c && c <= 'Z') || ('0' <= c && c <= '9')
}

/// A text of one random ASCII letter or digit. Trusted: `Rng::sample` of
/// rand on the thread's generator with the `Alphanumeric` distribution,
/// which yields a byte out of `A-Z`, `a-z` and `0-9`; which one is left
/// open.
#[verifier::external_body]
fn random_alphanumeric() -> (text: String)
    ensures
        text@.len() == 1,
        is_ascii_alphanumeric(text@[0]),
{
    String::from(char::from(rand::thread_rng().sample(Alphanumeric)))
}

/// A text of `length` random ASCII letters and digits.
pub fn generate_random_string(length: usize) -> (text: String)
    ensures
        text@.len() == length,
        forall|i: int| 0 <= i < text@.len() ==> is_ascii_alphanumeric(#[trigger] text@[i]),
{
    let mut text = String::new();
    let mut i: usize = 0;
    while i < length
        invariant
            i <= length,
            text@.len() == i,
            forall|k: int| 0 <= k < text@.len() ==> is_ascii_alphanumeric(#[trigger] text@[k]),
        decreases length - i,
    {
        let one = random_alphanumeric();
        let ghost before = text@;
        text.append(one.as_str());
        proof {
            assert forall|k: int| 0 <= k < text@.len() implies is_ascii_alphanumeric(
                #[trigger] text@[k],
            ) by {
                if k < before.len() {
                    assert(text@[k] == before[k]);
                } else {
                    assert(text@[k] == one@[0]);
                }
            }
        }
        i = i + 1;
    }
    text
}

/// What the name of a launcher that was created without one begins with.
pub const DEFAULT_LAUNCHER_NAME_PREFIX: &'static str = "双击编辑";

/// Whether `name` is a default launcher name: the fixed prefix and four
/// ASCII letters or digits.
pub open spec fn is_default_launcher_name(name: Seq<char>) -> bool {
    &&& name.len() == DEFAULT_LAUNCHER_NAME_PREFIX@.len() + 4
    &&& DEFAULT_LAUNCHER_NAME_PREFIX@.is_prefix_of(name)
    &&& forall|i: int|
        DEFAULT_LAUNCHER_NAME_PREFIX@.len() <= i < name.len() ==> is_ascii_alphanumeric(
            #[trigger] name[i],
        )
}

/// The default launcher name that ends in `suffix`.
pub fn default_launcher_name(suffix: &str) -> (name: String)
    ensures
        name@ == DEFAULT_LAUNCHER_NAME_PREFIX@ + suffix@,
{
    let mut name = DEFAULT_LAUNCHER_NAME_PREFIX.to_owned();
    name.append(suffix);
    name
}

/// A name for a launcher that was created without one.
pub fn generate_default_launcher_name() -> (name: String)
    ensures
        is_default_launcher_name(name@),
{
    let suffix = generate_random_string(4);
    let name = default_launcher_name(suffix.as_str());
    proof {
        let prefix = DEFAULT_LAUNCHER_NAME_PREFIX@;
        assert(name@.subrange(0, prefix.len() as int) =~= prefix);
        assert forall|i: int| prefix.len() <= i < name@.len() implies is_ascii_alphanumeric(
            #[trigger] name@[i],
        ) by {
            assert(name@[i] == suffix@[i - prefix.len()]);
        }
    }
    name
}

/// What stands behind the last backslash of `path`; all of `path` where it
/// holds no backslash.
pub open spec fn after_last_backslash(path: Seq<char>) -> Seq<char>
    decreases path.len(),
{
    if path.len() == 0 {
        path
    } else if path.last() == '\\' {
        Seq::empty()
    } else {
        after_last_backslash(path.drop_last()).push(path.last())
    }
}

/// Whether `c` is an ASCII letter, with which a URL scheme begins.
pub open spec fn is_scheme_letter(c: char) -> bool {
    ('a' <= c && c <= 'z') || ('A' <= c && c <= 'Z')
}

/// Whether `c` may stand in a URL scheme behind its first letter: an ASCII
/// letter or digit, `+`, `-` or `.`.
pub open spec fn is_scheme_char(c: char) -> bool {
    is_scheme_letter(c) || ('0' <= c && c <= '9') || c == '+' || c == '-' || c == '.'
}

/// Whether the first `k` characters of `text` are a URL scheme that is
/// followed by `://`.
pub open spec fn scheme_ends_at(text: Seq<char>, k: int) -> bool {
    &&& 1 <= k
    &&& k + 3 <= text.len()
    &&& is_scheme_letter(text[0])
    &&& forall|i: int| 1 <= i < k ==> is_scheme_char(#[trigger] text[i])
    &&& text[k] == ':'
    &&& text[k + 1] == '/'
    &&& text[k + 2] == '/'
}

/// Whether `text` begins with a URL scheme: a letter, then letters,
/// digits, `+`, `-` or `.`, then `://`, as in `https://example.com`. A
/// path that only begins with the letters of a scheme, or with a drive
/// letter and a colon, does not.
pub open spec fn begins_with_url_scheme(text: Seq<char>) -> bool {
    exists|k: int| scheme_ends_at(text, k)
}

/// The name of a resource that was added without one: the target itself
/// where it begins with a URL scheme, else the last segment of the path.
pub open spec fn derived_name(path: Seq<char>) -> Seq<char> {
    if begins_with_url_scheme(path) {
        path
    } else {
        after_last_backslash(path)
    }
}

fn scheme_letter(c: char) -> (letter: bool)
    ensures
        letter == is_scheme_letter(c),
{
    (c >= 'a' && c <= 'z') || (c >= 'A' && c <= 'Z')
}

fn scheme_char(c: char) -> (fits: bool)
    ensures
        fits == is_scheme_char(c),
{
    scheme_letter(c) || (c >= '0' && c <= '9') || c == '+' || c == '-' || c == '.'
}

/// Whether `text` begins with a URL scheme.
pub fn has_url_scheme(text: &str) -> (url: bool)
    ensures
        url == begins_with_url_scheme(text@),
{
    let chars = chars_of(text);
    let n = chars.len();
    if n == 0 || !scheme_letter(chars[0]) {
        proof {
            assert forall|k: int| !scheme_ends_at(text@, k) by {}
        }
        return false;
    }
    let mut i: usize = 1;
    while i < n && scheme_char(chars[i])
        invariant
            1 <= i <= n,
            n == chars.len(),
            forall|j: int| 1 <= j < i ==> is_scheme_char(#[trigger] chars@[j]),
        decreases n - i,
    {
        i = i + 1;
    }
    let found = n - i >= 3 && chars[i] == ':' && chars[i + 1] == '/' && chars[i + 2] == '/';
    proof {
        if found {
            assert(scheme_ends_at(text@, i as int));
        } else {
            assert forall|k: int| !scheme_ends_at(text@, k) by {
                if scheme_ends_at(text@, k) {
                    if k < i {
                        assert(is_scheme_char(chars@[k]));
                    } else if k > i {
                        assert(is_scheme_char(chars@[i as int]));
                    }
                }
            }
        }
    }
    found
}

/// What stands behind the last backslash is the rest of the path from the
/// place after a backslash that no backslash follows.
pub proof fn lemma_after_last_backslash(path: Seq<char>, from: int)
    requires
        0 <= from <= path.len(),
        from > 0 ==> path[from - 1] == '\\',
        forall|k: int| from <= k < path.len() ==> path[k] != '\\',
    ensures
        from > 0 ==> after_last_backslash(path) == path.skip(from),
        !path.contains('\\') ==> after_last_backslash(path) == path,
        !after_last_backslash(path).contains('\\'),
    decreases path.len(),
{
    if path.len() == 0 {
        assert(path.skip(0) =~= path);
    } else if path.last() == '\\' {
        assert(path.contains(path[path.len() - 1]));
        if from > 0 {
            assert(from == path.len());
            assert(path.skip(from) =~= Seq::<char>::empty());
        } else {
            assert(path[path.len() - 1] != '\\');
        }
    } else {
        let rest = path.drop_last();
        if from == path.len() {
            assert(path[from - 1] == '\\');
        }
        lemma_after_last_backslash_any(rest);
        if from > 0 {
            lemma_after_last_backslash(rest, from);
            assert(path.skip(from) =~= rest.skip(from).push(path.last()));
        }
        if !path.contains('\\') {
            assert forall|k: int| 0 <= k < rest.len() implies rest[k] != '\\' by {
                assert(path.contains(path[k]));
            }
            lemma_after_last_backslash(rest, 0);
            assert(rest.push(path.last()) =~= path);
        }
        let tail = after_last_backslash(rest);
        assert forall|k: int| 0 <= k < tail.push(path.last()).len() implies tail.push(
            path.last(),
        )[k] != '\\' by {
            if k < tail.len() {
                assert(tail.contains(tail[k]));
            }
        }
    }
}

/// What stands behind the last backslash holds no backslash.
pub proof fn lemma_after_last_backslash_any(path: Seq<char>)
    ensures
        !after_last_backslash(path).contains('\\'),
    decreases path.len(),
{
    if path.len() > 0 && path.last() != '\\' {
        lemma_after_last_backslash_any(path.drop_last());
        let tail = after_last_backslash(path.drop_last());
        assert forall|k: int| 0 <= k < tail.push(path.last()).len() implies tail.push(
            path.last(),
        )[k] != '\\' by {
            if k < tail.len() {
                assert(tail.contains(tail[k]));
            }
        }
    }
}

/// The name of a resource that was added without one.
pub fn generate_name(path: &str) -> (name: String)
    ensures
        name@ == derived_name(path@),
{
    if has_url_scheme(path) {
        return path.to_owned();
    }
    let chars = chars_of(path);
    let n = chars.len();
    let mut from: usize = n;
    while from > 0 && chars[from - 1] != '\\'
        invariant
            from <= n,
            n == chars.len(),
            forall|k: int| from <= k < n ==> chars@[k] != '\\',
        decreases from,
    {
        from = from - 1;
    }
    proof {
        if from == 0 {
            assert(!path@.contains('\\'));
        }
        lemma_after_last_backslash(path@, from as int);
    }
    if from == 0 {
        path.to_owned()
    } else {
        let segment = path.substring_char(from, n);
        proof {
            assert(path@.subrange(from as int, n as int) =~= path@.skip(from as int));
        }
        segment.to_owned()
    }
}

/// Creates a launcher called `name` behind all others and returns its
/// identifier and the payload of the event that tells of it. Fails with
/// `StorageError`, changing nothing, when no identifier or sort key is left.
pub fn create_named_launcher(db: &mut DatabaseManager, name: &str) -> (created: Result<
    (i64, LauncherBasicInfoUpdatedPayload),
    OneClickLaunchError,
>)
    requires
        old(db).wf(),
    ensures
        final(db).wf(),
        created is Ok <==> can_create(old(db)@, None),
        match created {
            Ok((id, payload)) => {
                &&& id == old(db)@.next_launcher_id
                &&& payload.launcher_ids@ == seq![id]
                &&& final(db)@ == old(db)@.with_launcher(
                    name@,
                    new_sort_key(old(db)@.launchers, None),
                )
            },
            Err(e) => e == OneClickLaunchError::StorageError && final(db)@ == old(db)@,
        },
{
    let mut tx = db.begin();
    match launcher::create(&mut tx, name, None) {
        Ok(id) => {
            proof {
                lemma_owned_more_launchers(
                    db@.launchers,
                    tx@.launchers.last(),
                    db@.resources,
                );
            }
            db.commit(tx);
            let mut launcher_ids: Vec<i64> = Vec::new();
            launcher_ids.push(id);
            Ok((id, LauncherBasicInfoUpdatedPayload { launcher_ids }))
        },
        Err(e) => Err(e),
    }
}

/// Creates a launcher and returns its identifier and the payload of the
/// event that tells of it. The launcher gets the given name, or, where none
/// or an empty one is given, a default name with a random ending. Fails with
/// `StorageError`, changing nothing, when no identifier or sort key is left.
pub fn craete_launcher(db: &mut DatabaseManager, name: Option<String>) -> (created: Result<
    (i64, LauncherBasicInfoUpdatedPayload),
    OneClickLaunchError,
>)
    requires
        old(db).wf(),
    ensures
        final(db).wf(),
        created is Ok <==> can_create(old(db)@, None),
        match created {
            Ok((id, payload)) => {
                &&& id == old(db)@.next_launcher_id
                &&& payload.launcher_ids@ == seq![id]
                &&& final(db)@ == old(db)@.with_launcher(
                    final(db)@.launchers.last().name,
                    new_sort_key(old(db)@.launchers, None),
                )
                &&& match name {
                    Some(given) if given@.len() > 0 => final(db)@.launchers.last().name == given@,
                    _ => is_default_launcher_name(final(db)@.launchers.last().name),
                }
            },
            Err(e) => e == OneClickLaunchError::StorageError && final(db)@ == old(db)@,
        },
{
    let chosen = match name {
        Some(given) => {
            if given.as_str().unicode_len() > 0 {
                given
            } else {
                generate_default_launcher_name()
            }
        },
        None => generate_default_launcher_name(),
    };
    create_named_launcher(db, chosen.as_str())
}

/// Renames the launcher called `launcher_id` and returns the payload of the
/// event that tells of it. Fails with `NotFound`, changing nothing, when
/// there is no such launcher.
pub fn modify_launcher_name(db: &mut DatabaseManager, launcher_id: i64, name: String) -> (done:
    Result<LauncherBasicInfoUpdatedPayload, OneClickLaunchError>)
    requires
        old(db).wf(),
    ensures
        final(db).wf(),
        done is Ok <==> has_launcher(old(db)@.launchers, launcher_id),
        match done {
            Ok(payload) => {
                &&& payload.launcher_ids@ == seq![launcher_id]
                &&& final(db)@ == old(db)@.with_launchers(
                    renamed(old(db)@.launchers, launcher_id, name@),
                )
            },
            Err(e) => e == OneClickLaunchError::NotFound && final(db)@ == old(db)@,
        },
{
    let mut tx = db.begin();
    match launcher::modify_launcher_name(&mut tx, launcher_id, name.as_str()) {
        Ok(_) => {
            proof {
                lemma_owned_same_ids(db@.launchers, tx@.launchers, db@.resources);
            }
            db.commit(tx);
            let mut launcher_ids: Vec<i64> = Vec::new();
            launcher_ids.push(launcher_id);
            Ok(LauncherBasicInfoUpdatedPayload { launcher_ids })
        },
        Err(e) => Err(e),
    }
}

/// The tables without the launcher called `id` and without the resources
/// that it owned.
pub open spec fn deleted(tables: TablesView, id: i64) -> TablesView {
    tables.with_launchers(without_launcher(tables.launchers, id)).with_resource_rows(
        selected(tables.resources, Selection::Launcher(id), false),
    )
}

/// Deletes the launcher called `launcher_id` together with every resource
/// that it owns, in one transaction, and returns the payload of the event
/// that tells of it. Where there is no such launcher nothing changes.
pub fn delete_launcher(db: &mut DatabaseManager, launcher_id: i64) -> (done: Result<
    LauncherBasicInfoUpdatedPayload,
    OneClickLaunchError,
>)
    requires
        old(db).wf(),
    ensures
        final(db).wf(),
        final(db)@ == deleted(old(db)@, launcher_id),
        forall|i: int|
            0 <= i < final(db)@.resources.len() ==> (#[trigger] final(db)@.resources[i]).launcher_id
                != launcher_id,
        match done {
            Ok(payload) => payload.launcher_ids@ == seq![launcher_id],
            Err(_) => false,
        },
{
    let mut tx = db.begin();
    launcher::delete_by_id(&mut tx, launcher_id);
    launcher_resource::delete_by_launcher(&mut tx, launcher_id);
    proof {
        lemma_owned_after_cascade(db@.launchers, db@.resources, launcher_id);
    }
    db.commit(tx);
    let mut launcher_ids: Vec<i64> = Vec::new();
    launcher_ids.push(launcher_id);
    Ok(LauncherBasicInfoUpdatedPayload { launcher_ids })
}

/// What is added to the name of a launcher to name its copy.
pub const COPY_NAME_SUFFIX: &'static str = "-副本";

/// The resources that the launcher called `id` owns, oldest first.
pub open spec fn owned(tables: TablesView, id: i64) -> Seq<LauncherResourceView> {
    selected(tables.resources, Selection::Launcher(id), true)
}

/// Name and target of each of `rows`.
pub open spec fn copy_params(rows: Seq<LauncherResourceView>) -> Seq<CreateResourceParamView> {
    rows.map_values(
        |row: LauncherResourceView| CreateResourceParamView { name: row.name, path: row.path },
    )
}

/// Whether the launcher called `id` can be copied: it exists, and one
/// launcher identifier and a resource identifier for each of its resources
/// are left.
pub open spec fn can_copy(tables: TablesView, id: i64) -> bool {
    &&& has_launcher(tables.launchers, id)
    &&& tables.next_launcher_id < i64::MAX
    &&& tables.next_resource_id + owned(tables, id).len() <= i64::MAX
}

/// The tables after the launcher called `id` was copied: a new launcher
/// with the source's name and the copy suffix and with the source's sort
/// key, and under it a new resource for each resource of the source, in the
/// order of their creation, with the same name and target.
pub open spec fn copied(tables: TablesView, id: i64) -> TablesView {
    let source = launcher_of(tables.launchers, id);
    tables.with_launcher(source.name + COPY_NAME_SUFFIX@, source.sort as int).with_resources(
        tables.next_launcher_id,
        copy_params(owned(tables, id)),
    )
}

/// Copies the launcher called `launcher_id` with all its resources, in one
/// transaction, and returns the identifier of the copy and the payload of
/// the event that tells of it. Fails with `NotFound` when there is no such
/// launcher and with `StorageError` when identifiers run out; either way
/// nothing changes: no launcher without its resources is left behind.
pub fn copy_launcher(db: &mut DatabaseManager, launcher_id: i64) -> (copy: Result<
    (i64, LauncherBasicInfoUpdatedPayload),
    OneClickLaunchError,
>)
    requires
        old(db).wf(),
    ensures
        final(db).wf(),
        copy is Ok <==> can_copy(old(db)@, launcher_id),
        match copy {
            Ok((id, payload)) => {
                &&& id == old(db)@.next_launcher_id
                &&& payload.launcher_ids@ == seq![launcher_id]
                &&& final(db)@ == copied(old(db)@, launcher_id)
            },
            Err(e) => {
                &&& final(db)@ == old(db)@
                &&& e == if has_launcher(old(db)@.launchers, launcher_id) {
                    OneClickLaunchError::StorageError
                } else {
                    OneClickLaunchError::NotFound
                }
            },
        },
{
    let mut tx = db.begin();
    let source = match launcher::find_by_id(&tx, launcher_id) {
        Ok(row) => row,
        Err(e) => {
            return Err(e);
        },
    };
    let rows = launcher_resource::query_by_launcher_id(&tx, launcher_id);
    let ghost sources = owned(db@, launcher_id);
    let ghost wanted = copy_params(sources);
    let n = rows.len();
    let mut items: Vec<CreateResourceParam> = Vec::new();
    let mut i: usize = 0;
    proof {
        assert(resource_views(rows@) == sources.reverse());
        assert(sources.len() == n);
    }
    while i < n
        invariant
            n == rows.len(),
            i <= n,
            sources.len() == n,
            resource_views(rows@) == sources.reverse(),
            wanted == copy_params(sources),
            items.len() == i,
            forall|k: int| 0 <= k < i ==> (#[trigger] items@[k])@ == wanted[k],
        decreases n - i,
    {
        let row = &rows[n - 1 - i];
        proof {
            assert(resource_views(rows@)[n - 1 - i] == sources[i as int]);
            assert(row@ == sources[i as int]);
        }
        items.push(CreateResourceParam { name: row.name.clone(), path: row.path.clone() });
        i = i + 1;
    }
    proof {
        assert(param_views(items@) =~= wanted);
    }
    let mut name = source.name.clone();
    name.append(COPY_NAME_SUFFIX);
    let id = match launcher::create(&mut tx, name.as_str(), Some(source.sort)) {
        Ok(id) => id,
        Err(e) => {
            return Err(e);
        },
    };
    let ghost middle = tx@;
    proof {
        lemma_owned_more_launchers(db@.launchers, middle.launchers.last(), db@.resources);
    }
    match launcher_resource::create_resources(&mut tx, id, &items) {
        Ok(_) => {
            proof {
                let added = created_rows(middle.next_resource_id, id, wanted);
                lemma_owned_more_resources(middle.launchers, middle.resources, added, id);
            }
            db.commit(tx);
            let mut launcher_ids: Vec<i64> = Vec::new();
            launcher_ids.push(launcher_id);
            Ok((id, LauncherBasicInfoUpdatedPayload { launcher_ids }))
        },
        Err(e) => Err(e),
    }
}

/// A launcher and the sort key that it is to get.
#[derive(Clone, Copy, Debug, PartialEq, Eq, Structural)]
pub struct LauncherSort {
    pub id: i64,
    pub sort: i32,
}

/// The launchers after each pair of `batch` gave its launcher its sort key,
/// in the order of the batch.
pub open spec fn resorted_all(launchers: Seq<LauncherView>, batch: Seq<LauncherSort>) -> Seq<
    LauncherView,
>
    decreases batch.len(),
{
    if batch.len() == 0 {
        launchers
    } else {
        resorted(resorted_all(launchers, batch.drop_last()), batch.last().id, batch.last().sort)
    }
}

/// The identifiers of `batch`, in order.
pub open spec fn batch_ids(batch: Seq<LauncherSort>) -> Seq<i64> {
    batch.map_values(|pair: LauncherSort| pair.id)
}

/// A batch of new sort keys leaves every launcher its identifier.
pub proof fn lemma_resorted_all_ids(launchers: Seq<LauncherView>, batch: Seq<LauncherSort>)
    ensures
        resorted_all(launchers, batch).len() == launchers.len(),
        forall|i: int|
            0 <= i < launchers.len() ==> (#[trigger] resorted_all(launchers, batch)[i]).id
                == launchers[i].id,
    decreases batch.len(),
{
    if batch.len() > 0 {
        lemma_resorted_all_ids(launchers, batch.drop_last());
    }
}

/// Gives each launcher of `launchers` its new sort key, all in one
/// transaction, and returns the payload of the event that tells of it. A
/// pair whose launcher does not exist changes nothing.
pub fn modify_launcher_sort(db: &mut DatabaseManager, launchers: Vec<LauncherSort>) -> (done:
    Result<LauncherBasicInfoUpdatedPayload, OneClickLaunchError>)
    requires
        old(db).wf(),
    ensures
        final(db).wf(),
        final(db)@ == old(db)@.with_launchers(resorted_all(old(db)@.launchers, launchers@)),
        match done {
            Ok(payload) => payload.launcher_ids@ == batch_ids(launchers@),
            Err(_) => false,
        },
{
    let mut tx = db.begin();
    let ghost before = db@;
    let n = launchers.len();
    let mut launcher_ids: Vec<i64> = Vec::new();
    let mut i: usize = 0;
    proof {
        assert(tx@.launchers =~= resorted_all(before.launchers, launchers@.take(0)));
    }
    while i < n
        invariant
            n == launchers.len(),
            i <= n,
            tx.wf(),
            tx@ == before.with_launchers(resorted_all(before.launchers, launchers@.take(i as int))),
            launcher_ids@ == batch_ids(launchers@).take(i as int),
        decreases n - i,
    {
        launcher::modify_launcher_sort(&mut tx, launchers[i].id, launchers[i].sort);
        launcher_ids.push(launchers[i].id);
        proof {
            assert(launchers@.take(i + 1).drop_last() =~= launchers@.take(i as int));
            assert(batch_ids(launchers@).take(i + 1) =~= batch_ids(launchers@).take(i as int).push(
                launchers@[i as int].id,
            ));
        }
        i = i + 1;
    }
    proof {
        assert(launchers@.take(n as int) =~= launchers@);
        assert(batch_ids(launchers@).take(n as int) =~= batch_ids(launchers@));
        lemma_resorted_all_ids(before.launchers, launchers@);
        lemma_owned_same_ids(before.launchers, tx@.launchers, before.resources);
    }
    db.commit(tx);
    Ok(LauncherBasicInfoUpdatedPayload { launcher_ids })
}

/// Name and target of a resource that the user adds. Without a name, or
/// with an empty one, the name is derived from the target.
#[derive(Clone, Debug, PartialEq, Eq)]
pub struct ResourceParam {
    pub name: Option<String>,
    pub path: String,
}

/// The name that a resource gets: the given one, or, where none or an empty
/// one is given, the name derived from its target.
pub open spec fn chosen_name(name: Option<String>, path: Seq<char>) -> Seq<char> {
    match name {
        Some(given) => if given@.len() > 0 {
            given@
        } else {
            derived_name(path)
        },
        None => derived_name(path),
    }
}

/// Name and target with which each of `params` is created.
pub open spec fn resolved(params: Seq<ResourceParam>) -> Seq<CreateResourceParamView> {
    params.map_values(
        |param: ResourceParam|
            CreateResourceParamView {
                name: chosen_name(param.name, param.path@),
                path: param.path@,
            },
    )
}

/// Whether every one of `params` names a target.
pub open spec fn all_paths_given(params: Seq<ResourceParam>) -> bool {
    forall|i: int| 0 <= i < params.len() ==> (#[trigger] params[i]).path@.len() > 0
}

/// The error with which adding resources under `launcher_id` fails.
pub open spec fn add_error(tables: TablesView, launcher_id: i64, paths_given: bool) -> OneClickLaunchError {
    if !paths_given {
        OneClickLaunchError::InvalidArgument
    } else if !has_launcher(tables.launchers, launcher_id) {
        OneClickLaunchError::NotFound
    } else {
        OneClickLaunchError::StorageError
    }
}

fn choose_name(name: &Option<String>, path: &str) -> (chosen: String)
    ensures
        chosen@ == chosen_name(*name, path@),
{
    match name {
        Some(given) => {
            if given.as_str().unicode_len() > 0 {
                given.clone()
            } else {
                generate_name(path)
            }
        },
        None => generate_name(path),
    }
}

/// Adds one resource for each of `resources` under `launcher_id`, in one
/// transaction, and returns the new identifiers in order. The batch is
/// added whole or not at all. Fails with `InvalidArgument` when a target is
/// empty, else with `NotFound` when the batch is not empty and the launcher
/// does not exist, else with `StorageError` when identifiers run out.
pub fn add_resources(db: &mut DatabaseManager, launcher_id: i64, resources: Vec<ResourceParam>) -> (added: Result<Vec<i64>, OneClickLaunchError>)
    requires
        old(db).wf(),
    ensures
        final(db).wf(),
        added is Ok <==> all_paths_given(resources@) && old(db)@.can_take_resources(
            launcher_id,
            resources@.len(),
        ),
        match added {
            Ok(ids) => {
                &&& final(db)@ == old(db)@.with_resources(launcher_id, resolved(resources@))
                &&& ids@.len() == resources@.len()
                &&& forall|k: int|
                    0 <= k < ids@.len() ==> #[trigger] ids@[k] == old(db)@.next_resource_id + k
            },
            Err(e) => {
                &&& final(db)@ == old(db)@
                &&& e == add_error(old(db)@, launcher_id, all_paths_given(resources@))
            },
        },
{
    let n = resources.len();
    let mut items: Vec<CreateResourceParam> = Vec::new();
    let mut i: usize = 0;
    while i < n
        invariant
            n == resources.len(),
            i <= n,
            items.len() == i,
            *db == *old(db),
            db.wf(),
            forall|k: int| 0 <= k < i ==> (#[trigger] resources@[k]).path@.len() > 0,
            forall|k: int| 0 <= k < i ==> (#[trigger] items@[k])@ == resolved(resources@)[k],
        decreases n - i,
    {
        let path = resources[i].path.as_str();
        if path.unicode_len() == 0 {
            return Err(OneClickLaunchError::InvalidArgument);
        }
        let name = choose_name(&resources[i].name, path);
        items.push(CreateResourceParam { name, path: path.to_owned() });
        i = i + 1;
    }
    proof {
        assert(param_views(items@) =~= resolved(resources@));
    }
    let mut tx = db.begin();
    match launcher_resource::create_resources(&mut tx, launcher_id, &items) {
        Ok(ids) => {
            proof {
                let first = db@.next_resource_id;
                let rows = created_rows(first, launcher_id, resolved(resources@));
                lemma_owned_more_resources(db@.launchers, db@.resources, rows, launcher_id);
            }
            db.commit(tx);
            Ok(ids)
        },
        Err(e) => Err(e),
    }
}

/// Adds a resource with the target `path` under `launcher_id` and returns
/// its identifier. Fails with `InvalidArgument` when `path` is empty, else
/// with `NotFound` when the launcher does not exist, else with
/// `StorageError` when no identifier is left; then nothing changes.
pub fn add_resource(db: &mut DatabaseManager, launcher_id: i64, name: Option<String>, path: &str) -> (added: Result<i64, OneClickLaunchError>)
    requires
        old(db).wf(),
    ensures
        final(db).wf(),
        added is Ok <==> path@.len() > 0 && old(db)@.can_take_resources(launcher_id, 1),
        match added {
            Ok(id) => {
                &&& id == old(db)@.next_resource_id
                &&& final(db)@ == old(db)@.with_resources(
                    launcher_id,
                    seq![CreateResourceParamView { name: chosen_name(name, path@), path: path@ }],
                )
            },
            Err(e) => {
                &&& final(db)@ == old(db)@
                &&& e == add_error(old(db)@, launcher_id, path@.len() > 0)
            },
        },
{
    let mut resources: Vec<ResourceParam> = Vec::new();
    resources.push(ResourceParam { name, path: path.to_owned() });
    proof {
        assert(resources@[0].path@ == path@);
        assert(all_paths_given(resources@) == (path@.len() > 0)) by {
            if path@.len() > 0 {
                assert forall|i: int| 0 <= i < resources@.len() implies (
                #[trigger] resources@[i]).path@.len() > 0 by {}
            }
        }
        assert(resolved(resources@) =~= seq![
            CreateResourceParamView { name: chosen_name(name, path@), path: path@ },
        ]);
    }
    match add_resources(db, launcher_id, resources) {
        Ok(ids) => Ok(ids[0]),
        Err(e) => Err(e),
    }
}

/// Renames the resource called `resource_id`. Where there is no such
/// resource nothing changes.
pub fn modify_resource_name(db: &mut DatabaseManager, resource_id: i64, name: &str) -> (done: Result<
    (),
    OneClickLaunchError,
>)
    requires
        old(db).wf(),
    ensures
        final(db).wf(),
        done is Ok,
        final(db)@ == old(db)@.with_resource_rows(
            launcher_resource::renamed(old(db)@.resources, resource_id, name@),
        ),
{
    let mut tx = db.begin();
    launcher_resource::modify_name(&mut tx, resource_id, name);
    proof {
        let before = db@.resources;
        let after = tx@.resources;
        assert forall|i: int| 0 <= i < after.len() implies has_launcher(
            tx@.launchers,
            (#[trigger] after[i]).launcher_id,
        ) by {
            assert(after[i].launcher_id == before[i].launcher_id);
        }
    }
    db.commit(tx);
    Ok(())
}

/// Deletes the resource called `resource_id`. Where there is no such
/// resource nothing changes.
pub fn delete_resource(db: &mut DatabaseManager, resource_id: i64) -> (done: Result<
    (),
    OneClickLaunchError,
>)
    requires
        old(db).wf(),
    ensures
        final(db).wf(),
        done is Ok,
        final(db)@ == old(db)@.with_resource_rows(
            selected(old(db)@.resources, Selection::Id(resource_id), false),
        ),
{
    let mut tx = db.begin();
    launcher_resource::delete_by_id(&mut tx, resource_id);
    proof {
        lemma_owned_fewer_resources(db@.launchers, db@.resources, Selection::Id(resource_id), false);
    }
    db.commit(tx);
    Ok(())
}

/// A resource as the user interface shows it.
#[derive(Clone, Debug, PartialEq, Eq)]
pub struct LauncherResourceVo {
    pub id: i64,
    pub launcher_id: i64,
    pub name: String,
    pub path: String,
}

impl View for LauncherResourceVo {
    type V = LauncherResourceView;

    open spec fn view(&self) -> LauncherResourceView {
        LauncherResourceView {
            id: self.id,
            launcher_id: self.launcher_id,
            name: self.name@,
            path: self.path@,
        }
    }
}

/// The values of a run of shown resources.
pub open spec fn resource_vo_views(rows: Seq<LauncherResourceVo>) -> Seq<LauncherResourceView> {
    rows.map_values(|row: LauncherResourceVo| row@)
}

/// A launcher with its resources as the user interface shows it.
#[derive(Clone, Debug, PartialEq, Eq)]
pub struct LauncherVo {
    pub id: i64,
    pub name: String,
    pub resources: Vec<LauncherResourceVo>,
}

/// The mathematical value of a `LauncherVo`.
pub struct LauncherVoView {
    pub id: i64,
    pub name: Seq<char>,
    pub resources: Seq<LauncherResourceView>,
}

impl View for LauncherVo {
    type V = LauncherVoView;

    open spec fn view(&self) -> LauncherVoView {
        LauncherVoView {
            id: self.id,
            name: self.name@,
            resources: resource_vo_views(self.resources@),
        }
    }
}

/// The values of a run of shown launchers.
pub open spec fn launcher_vo_views(rows: Seq<LauncherVo>) -> Seq<LauncherVoView> {
    rows.map_values(|row: LauncherVo| row@)
}

/// How `launcher` is shown: with its resources, most recently created
/// first.
pub open spec fn shown(tables: TablesView, launcher: LauncherView) -> LauncherVoView {
    LauncherVoView {
        id: launcher.id,
        name: launcher.name,
        resources: owned(tables, launcher.id).reverse(),
    }
}

/// All launchers in listing order, each with its resources, most recently
/// created first.
pub fn query_launchers(db: &DatabaseManager) -> (listing: Result<Vec<LauncherVo>, OneClickLaunchError>)
    requires
        db.wf(),
    ensures
        match listing {
            Ok(rows) => launcher_vo_views(rows@) == listing_of(db@.launchers).map_values(
                |launcher: LauncherView| shown(db@, launcher),
            ),
            Err(_) => false,
        },
{
    let tables = db.tables();
    let launchers = launcher::query(tables);
    let ghost wanted = listing_of(db@.launchers).map_values(
        |launcher: LauncherView| shown(db@, launcher),
    );
    let n = launchers.len();
    let mut rows: Vec<LauncherVo> = Vec::new();
    let mut i: usize = 0;
    while i < n
        invariant
            n == launchers.len(),
            i <= n,
            tables.wf(),
            tables@ == db@,
            launcher_views(launchers@) == listing_of(db@.launchers),
            wanted == listing_of(db@.launchers).map_values(
                |launcher: LauncherView| shown(db@, launcher),
            ),
            rows.len() == i,
            forall|k: int| 0 <= k < i ==> (#[trigger] rows@[k])@ == wanted[k],
        decreases n - i,
    {
        let found = launcher_resource::query_by_launcher_id(tables, launchers[i].id);
        let m = found.len();
        let mut resources: Vec<LauncherResourceVo> = Vec::new();
        let mut j: usize = 0;
        while j < m
            invariant
                m == found.len(),
                j <= m,
                resources.len() == j,
                forall|k: int| 0 <= k < j ==> (#[trigger] resources@[k])@ == found@[k]@,
            decreases m - j,
        {
            resources.push(
                LauncherResourceVo {
                    id: found[j].id,
                    launcher_id: found[j].launcher_id,
                    name: found[j].name.clone(),
                    path: found[j].path.clone(),
                },
            );
            j = j + 1;
        }
        proof {
            assert(resource_vo_views(resources@) =~= resource_views(found@));
            assert(launcher_views(launchers@)[i as int] == launchers@[i as int]@);
        }
        rows.push(LauncherVo { id: launchers[i].id, name: launchers[i].name.clone(), resources });
        i = i + 1;
    }
    proof {
        assert(launcher_vo_views(rows@) =~= wanted);
    }
    Ok(rows)
}

/// The action that opens each of `rows`, in order.
pub open spec fn open_actions(rows: Seq<LauncherResourceView>) -> Seq<ActionView> {
    rows.map_values(
        |row: LauncherResourceView| ActionView::OpenResource { name: row.name, path: row.path },
    )
}

/// What launching the launcher called `id` asks for: open each of its
/// resources, most recently created first, then publish that the launcher
/// was launched.
pub open spec fn launch_actions(tables: TablesView, id: i64) -> Seq<ActionView> {
    open_actions(owned(tables, id).reverse()).push(
        ActionView::Publish { event: EventMessageView::LauncherLaunched { launcher_ids: seq![id] } },
    )
}

/// The actions that open `resources`, one for each, in order. A resource
/// that fails to open does not keep the others from opening.
pub fn launch_resources(resources: &Vec<LauncherResource>) -> (actions: Vec<Action>)
    ensures
        action_views(actions@) == open_actions(resource_views(resources@)),
{
    let n = resources.len();
    let mut actions: Vec<Action> = Vec::new();
    let mut i: usize = 0;
    while i < n
        invariant
            n == resources.len(),
            i <= n,
            actions.len() == i,
            forall|k: int|
                0 <= k < i ==> (#[trigger] actions@[k])@ == open_actions(
                    resource_views(resources@),
                )[k],
        decreases n - i,
    {
        actions.push(
            Action::OpenResource {
                name: resources[i].name.clone(),
                path: resources[i].path.clone(),
            },
        );
        i = i + 1;
    }
    proof {
        assert(action_views(actions@) =~= open_actions(resource_views(resources@)));
    }
    actions
}

/// What launching the launcher called `launcher_id` asks for.
pub fn launch_in(executor: &Tables, launcher_id: i64) -> (actions: Vec<Action>)
    requires
        executor.wf(),
    ensures
        action_views(actions@) == launch_actions(executor@, launcher_id),
{
    let resources = launcher_resource::query_by_launcher_id(executor, launcher_id);
    let mut actions = launch_resources(&resources);
    let mut launcher_ids: Vec<i64> = Vec::new();
    launcher_ids.push(launcher_id);
    push_action(
        &mut actions,
        Action::Publish(EventMessage::LauncherLaunched(LauncherLaunchedPayload { launcher_ids })),
    );
    actions
}

/// Launches the launcher called `launcher_id`: returns the actions that
/// open its resources and publish that it was launched.
pub fn launch(db: &DatabaseManager, launcher_id: i64) -> (actions: Result<
    Vec<Action>,
    OneClickLaunchError,
>)
    requires
        db.wf(),
    ensures
        match actions {
            Ok(actions) => action_views(actions@) == launch_actions(db@, launcher_id),
            Err(_) => false,
        },
{
    Ok(launch_in(db.tables(), launcher_id))
}

/// After a launcher was deleted no resource names it as its owner, the
/// listing of its resources is empty, the launcher is gone, and the store
/// is sound.
pub proof fn lemma_delete_leaves_no_resources(tables: TablesView, id: i64)
    requires
        tables.valid(),
        tables.consistent(),
    ensures
        forall|i: int|
            0 <= i < deleted(tables, id).resources.len() ==> (#[trigger] deleted(
                tables,
                id,
            ).resources[i]).launcher_id != id,
        owned(deleted(tables, id), id).reverse() == Seq::<LauncherResourceView>::empty(),
        !has_launcher(deleted(tables, id).launchers, id),
        deleted(tables, id).consistent(),
{
    let after = deleted(tables, id);
    lemma_owned_after_cascade(tables.launchers, tables.resources, id);
    let picks = |row: LauncherResourceView| Selection::Launcher(id).picks(row) == true;
    lemma_filter_none(after.resources, picks);
    assert(owned(after, id).reverse() =~= Seq::<LauncherResourceView>::empty());
    let stay = |row: LauncherView| row.id != id;
    assert forall|k: int| 0 <= k < after.launchers.len() implies (#[trigger] after.launchers[k]).id
        != id by {
        tables.launchers.lemma_filter_pred(stay, k);
    }
}

/// A copy has as many resources as its source had, each with the name and
/// the target of the source's resource at the same place and with an
/// identifier that no resource had before; the source keeps its row and its
/// resources.
pub proof fn lemma_copy_keeps_resources(tables: TablesView, id: i64)
    requires
        tables.valid(),
        tables.consistent(),
        can_copy(tables, id),
    ensures
        owned(copied(tables, id), tables.next_launcher_id).len() == owned(tables, id).len(),
        forall|k: int|
            0 <= k < owned(tables, id).len() ==> {
                let copy = #[trigger] owned(copied(tables, id), tables.next_launcher_id)[k];
                &&& copy.name == owned(tables, id)[k].name
                &&& copy.path == owned(tables, id)[k].path
                &&& copy.id >= tables.next_resource_id
            },
        forall|i: int|
            0 <= i < tables.resources.len() ==> (#[trigger] tables.resources[i]).id
                < tables.next_resource_id,
        owned(copied(tables, id), id) == owned(tables, id),
        launcher_of(copied(tables, id).launchers, id) == launcher_of(tables.launchers, id),
        forall|i: int|
            0 <= i < tables.launchers.len() ==> #[trigger] copied(tables, id).launchers[i]
                == tables.launchers[i],
{
    let after = copied(tables, id);
    let new_id = tables.next_launcher_id;
    let sources = owned(tables, id);
    let added = created_rows(tables.next_resource_id, new_id, copy_params(sources));
    assert(after.resources == tables.resources + added);
    let k = choose|k: int| 0 <= k < tables.launchers.len() && (#[trigger] tables.launchers[k]).id == id;
    assert(id < new_id);
    let to_copy = |row: LauncherResourceView| Selection::Launcher(new_id).picks(row) == true;
    let to_source = |row: LauncherResourceView| Selection::Launcher(id).picks(row) == true;
    assert forall|i: int| 0 <= i < tables.resources.len() implies !to_copy(
        #[trigger] tables.resources[i],
    ) by {
        let m = choose|m: int|
            0 <= m < tables.launchers.len() && (#[trigger] tables.launchers[m]).id
                == tables.resources[i].launcher_id;
        assert(tables.launchers[m].id < new_id);
    }
    lemma_filter_none(tables.resources, to_copy);
    lemma_filter_all(added, to_copy);
    lemma_filter_none(added, to_source);
    Seq::filter_distributes_over_add(tables.resources, added, to_copy);
    Seq::filter_distributes_over_add(tables.resources, added, to_source);
    assert(owned(after, new_id) =~= added);
    assert(owned(after, id) =~= sources);
    assert(after.launchers[k] == tables.launchers[k]);
    launcher::lemma_launcher_of(tables.launchers, k);
    assert forall|a: int, b: int| 0 <= a < b < after.launchers.len() implies (
    #[trigger] after.launchers[a]).id < (#[trigger] after.launchers[b]).id by {
        if b < tables.launchers.len() {
            assert(tables.launchers[a].id < tables.launchers[b].id);
        } else {
            assert(tables.launchers[a].id < new_id);
        }
    }
    launcher::lemma_launcher_of(after.launchers, k);
}

} // verus!
