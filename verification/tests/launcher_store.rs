use one_click_launch::api::launcher_api::{
    add_resource, add_resources, copy_launcher, craete_launcher, create_named_launcher,
    delete_launcher, delete_resource, generate_default_launcher_name, generate_name,
    generate_random_string, has_url_scheme, launch, launch_resources, modify_launcher_name,
    modify_launcher_sort, modify_resource_name, query_launchers, LauncherSort, ResourceParam,
};
use one_click_launch::action::Action;
use one_click_launch::db::launcher::{self, Launcher};
use one_click_launch::db::launcher_resource::{self, LauncherResource};
use one_click_launch::db::settings::Settings;
use one_click_launch::error::OneClickLaunchError;
use one_click_launch::events::types::LauncherLaunchedPayload;
use one_click_launch::events::EventMessage;
use one_click_launch::DatabaseManager;

fn resource(id: i64, launcher_id: i64, name: &str, path: &str) -> LauncherResource {
    LauncherResource { id, launcher_id, name: name.to_string(), path: path.to_string() }
}

fn launcher_row(id: i64, name: &str, sort: i32) -> Launcher {
    Launcher { id, name: name.to_string(), sort }
}

fn param(name: Option<&str>, path: &str) -> ResourceParam {
    ResourceParam { name: name.map(|n| n.to_string()), path: path.to_string() }
}

#[test]
fn derived_name_of_url_is_the_url() {
    assert_eq!(generate_name("https://example.com/x"), "https://example.com/x");
}

#[test]
fn derived_name_of_path_is_last_segment() {
    assert_eq!(generate_name("C:\\a\\b\\c.exe"), "c.exe");
}

#[test]
fn derived_name_edge_cases() {
    assert_eq!(generate_name(""), "");
    assert_eq!(generate_name("plain"), "plain");
    assert_eq!(generate_name("C:\\dir\\"), "");
    assert_eq!(generate_name("http"), "http");
    assert_eq!(generate_name("/usr/bin/tool"), "/usr/bin/tool");
    assert_eq!(generate_name("D:\\文档\\一封信.pdf"), "一封信.pdf");
}

#[test]
fn derived_name_of_path_that_begins_like_a_scheme_is_last_segment() {
    assert_eq!(generate_name("httpd\\conf\\x.conf"), "x.conf");
    assert_eq!(generate_name("httpx\\y"), "y");
    assert_eq!(generate_name("http\\y"), "y");
    assert_eq!(generate_name("https:\\host\\y"), "y");
    assert_eq!(generate_name("http:/\\y"), "y");
    assert_eq!(generate_name("C:\\a://b\\c"), "c");
    assert_eq!(generate_name("://\\a"), "a");
    assert_eq!(generate_name("1a://x\\y"), "y");
    assert_eq!(generate_name("a b://x\\y"), "y");
}

#[test]
fn derived_name_of_any_scheme_is_the_target() {
    for url in [
        "http://a",
        "https://example.com/a\\b",
        "HTTPS://EXAMPLE.COM",
        "ftp://host/file.txt",
        "file:///C:/a/b.txt",
        "a://",
        "svn+ssh://host\\repo",
        "x-app.v2://open\\now",
    ] {
        assert_eq!(generate_name(url), url);
    }
}

#[test]
fn url_scheme_prefix() {
    assert!(has_url_scheme("https://example.com/x"));
    assert!(has_url_scheme("a://"));
    assert!(has_url_scheme("a1+-.://x"));
    assert!(!has_url_scheme(""));
    assert!(!has_url_scheme("http"));
    assert!(!has_url_scheme("http:"));
    assert!(!has_url_scheme("http:/"));
    assert!(!has_url_scheme("http:/x/"));
    assert!(!has_url_scheme("httpd\\conf\\x.conf"));
    assert!(!has_url_scheme("C:\\a\\b\\c.exe"));
    assert!(!has_url_scheme("mailto:a@b.c"));
    assert!(!has_url_scheme("://x"));
    assert!(!has_url_scheme("1http://x"));
    assert!(!has_url_scheme("+a://x"));
    assert!(!has_url_scheme("ht tp://x"));
    assert!(!has_url_scheme("é://x"));
    assert!(!has_url_scheme(" http://x"));
}

#[test]
fn random_string_has_length_and_alphabet() {
    for length in [0usize, 1, 4, 64] {
        let text = generate_random_string(length);
        assert_eq!(text.chars().count(), length);
        assert!(text.chars().all(|c| c.is_ascii_alphanumeric()));
    }
}

#[test]
fn default_launcher_name_has_prefix_and_four_characters() {
    let name = generate_default_launcher_name();
    assert!(name.starts_with("双击编辑"));
    let suffix: Vec<char> = name.chars().skip(4).collect();
    assert_eq!(suffix.len(), 4);
    assert!(suffix.iter().all(|c| c.is_ascii_alphanumeric()));
}

#[test]
fn create_assigns_growing_ids_and_appends() {
    let mut db = DatabaseManager::new();
    let (a, payload) = craete_launcher(&mut db, Some("first".to_string())).unwrap();
    assert_eq!(a, 1);
    assert_eq!(payload.launcher_ids, vec![1]);
    let (b, _) = craete_launcher(&mut db, Some("second".to_string())).unwrap();
    assert_eq!(b, 2);
    let listing = query_launchers(&db).unwrap();
    assert_eq!(listing.len(), 2);
    assert_eq!((listing[0].id, listing[0].name.as_str()), (1, "first"));
    assert_eq!((listing[1].id, listing[1].name.as_str()), (2, "second"));
    let rows = launcher::query(db.tables());
    assert_eq!(rows[0].sort, 1);
    assert_eq!(rows[1].sort, 2);
}

#[test]
fn create_without_name_uses_default_name() {
    let mut db = DatabaseManager::new();
    craete_launcher(&mut db, None).unwrap();
    craete_launcher(&mut db, Some(String::new())).unwrap();
    let listing = query_launchers(&db).unwrap();
    for row in listing.iter() {
        assert!(row.name.starts_with("双击编辑"));
        assert_eq!(row.name.chars().count(), 8);
    }
}

#[test]
fn ids_are_not_reused_after_delete() {
    let mut db = DatabaseManager::new();
    let (a, _) = create_named_launcher(&mut db, "a").unwrap();
    delete_launcher(&mut db, a).unwrap();
    let (b, _) = create_named_launcher(&mut db, "b").unwrap();
    assert_eq!(a, 1);
    assert_eq!(b, 2);
}

#[test]
fn create_fails_when_ids_are_exhausted() {
    let mut db =
        DatabaseManager::from_rows(vec![launcher_row(i64::MAX - 1, "last", 1)], vec![], vec![])
            .unwrap();
    assert_eq!(
        create_named_launcher(&mut db, "more").unwrap_err(),
        OneClickLaunchError::StorageError
    );
    assert_eq!(query_launchers(&db).unwrap().len(), 1);
}

#[test]
fn create_fails_when_sort_keys_are_exhausted() {
    let mut db =
        DatabaseManager::from_rows(vec![launcher_row(1, "top", i32::MAX)], vec![], vec![]).unwrap();
    assert_eq!(
        create_named_launcher(&mut db, "more").unwrap_err(),
        OneClickLaunchError::StorageError
    );
    assert_eq!(query_launchers(&db).unwrap().len(), 1);
}

#[test]
fn rename_changes_the_name_only() {
    let mut db = DatabaseManager::new();
    let (a, _) = create_named_launcher(&mut db, "a").unwrap();
    let (b, _) = create_named_launcher(&mut db, "b").unwrap();
    let payload = modify_launcher_name(&mut db, a, "renamed".to_string()).unwrap();
    assert_eq!(payload.launcher_ids, vec![a]);
    let rows = launcher::query(db.tables());
    assert_eq!(rows, vec![launcher_row(a, "renamed", 1), launcher_row(b, "b", 2)]);
}

#[test]
fn rename_of_missing_launcher_is_not_found() {
    let mut db = DatabaseManager::new();
    create_named_launcher(&mut db, "a").unwrap();
    assert_eq!(
        modify_launcher_name(&mut db, 42, "x".to_string()).unwrap_err(),
        OneClickLaunchError::NotFound
    );
    assert_eq!(launcher::query(db.tables()), vec![launcher_row(1, "a", 1)]);
}

#[test]
fn find_of_missing_launcher_is_not_found() {
    let mut db = DatabaseManager::new();
    let (a, _) = create_named_launcher(&mut db, "a").unwrap();
    assert_eq!(launcher::find_by_id(db.tables(), a).unwrap(), launcher_row(a, "a", 1));
    assert_eq!(
        launcher::find_by_id(db.tables(), a + 1).unwrap_err(),
        OneClickLaunchError::NotFound
    );
}

#[test]
fn reorder_batch_then_list() {
    let mut db = DatabaseManager::new();
    let (id1, _) = create_named_launcher(&mut db, "one").unwrap();
    let (id2, _) = create_named_launcher(&mut db, "two").unwrap();
    let batch = vec![LauncherSort { id: id1, sort: 3 }, LauncherSort { id: id2, sort: 1 }];
    let payload = modify_launcher_sort(&mut db, batch).unwrap();
    assert_eq!(payload.launcher_ids, vec![id1, id2]);
    let listing = query_launchers(&db).unwrap();
    assert_eq!(listing.len(), 2);
    assert_eq!(listing[0].id, id2);
    assert_eq!(listing[1].id, id1);
}

#[test]
fn equal_sort_keys_list_larger_id_first() {
    let mut db = DatabaseManager::new();
    let (a, _) = create_named_launcher(&mut db, "a").unwrap();
    let (b, _) = create_named_launcher(&mut db, "b").unwrap();
    let (c, _) = create_named_launcher(&mut db, "c").unwrap();
    let batch = vec![
        LauncherSort { id: a, sort: 5 },
        LauncherSort { id: b, sort: 5 },
        LauncherSort { id: c, sort: 4 },
    ];
    modify_launcher_sort(&mut db, batch).unwrap();
    let ids: Vec<i64> = query_launchers(&db).unwrap().iter().map(|l| l.id).collect();
    assert_eq!(ids, vec![c, b, a]);
}

#[test]
fn reorder_of_missing_launcher_changes_nothing() {
    let mut db = DatabaseManager::new();
    let (a, _) = create_named_launcher(&mut db, "a").unwrap();
    let batch = vec![LauncherSort { id: 99, sort: 7 }, LauncherSort { id: a, sort: 9 }];
    let payload = modify_launcher_sort(&mut db, batch).unwrap();
    assert_eq!(payload.launcher_ids, vec![99, a]);
    assert_eq!(launcher::query(db.tables()), vec![launcher_row(a, "a", 9)]);
}

#[test]
fn later_pair_of_a_batch_wins() {
    let mut db = DatabaseManager::new();
    let (a, _) = create_named_launcher(&mut db, "a").unwrap();
    let batch = vec![LauncherSort { id: a, sort: 7 }, LauncherSort { id: a, sort: -3 }];
    modify_launcher_sort(&mut db, batch).unwrap();
    assert_eq!(launcher::query(db.tables()), vec![launcher_row(a, "a", -3)]);
}

#[test]
fn add_resource_derives_the_name() {
    let mut db = DatabaseManager::new();
    let (l, _) = create_named_launcher(&mut db, "l").unwrap();
    let r1 = add_resource(&mut db, l, None, "C:\\a\\b\\c.exe").unwrap();
    let r2 = add_resource(&mut db, l, Some(String::new()), "https://example.com/x").unwrap();
    let r3 = add_resource(&mut db, l, Some("given".to_string()), "C:\\x\\y.txt").unwrap();
    assert_eq!((r1, r2, r3), (1, 2, 3));
    let rows = launcher_resource::query_by_launcher_id(db.tables(), l);
    assert_eq!(
        rows,
        vec![
            resource(3, l, "given", "C:\\x\\y.txt"),
            resource(2, l, "https://example.com/x", "https://example.com/x"),
            resource(1, l, "c.exe", "C:\\a\\b\\c.exe"),
        ]
    );
}

#[test]
fn add_resource_errors() {
    let mut db = DatabaseManager::new();
    let (l, _) = create_named_launcher(&mut db, "l").unwrap();
    assert_eq!(
        add_resource(&mut db, l, None, "").unwrap_err(),
        OneClickLaunchError::InvalidArgument
    );
    assert_eq!(
        add_resource(&mut db, l + 1, None, "C:\\a").unwrap_err(),
        OneClickLaunchError::NotFound
    );
    assert_eq!(
        add_resource(&mut db, l + 1, None, "").unwrap_err(),
        OneClickLaunchError::InvalidArgument
    );
    assert!(launcher_resource::query_all(db.tables()).is_empty());
}

#[test]
fn add_resources_commits_whole_batch() {
    let mut db = DatabaseManager::new();
    let (l, _) = create_named_launcher(&mut db, "l").unwrap();
    let ids = add_resources(
        &mut db,
        l,
        vec![param(None, "https://example.com/x"), param(Some("n"), "C:\\a\\b\\c.exe")],
    )
    .unwrap();
    assert_eq!(ids, vec![1, 2]);
    assert_eq!(
        launcher_resource::query_all(db.tables()),
        vec![
            resource(2, l, "n", "C:\\a\\b\\c.exe"),
            resource(1, l, "https://example.com/x", "https://example.com/x"),
        ]
    );
}

#[test]
fn add_resources_rejects_whole_batch() {
    let mut db = DatabaseManager::new();
    let (l, _) = create_named_launcher(&mut db, "l").unwrap();
    assert_eq!(
        add_resources(&mut db, l, vec![param(None, "C:\\ok"), param(None, "")]).unwrap_err(),
        OneClickLaunchError::InvalidArgument
    );
    assert_eq!(
        add_resources(&mut db, 77, vec![param(None, "C:\\ok")]).unwrap_err(),
        OneClickLaunchError::NotFound
    );
    assert!(launcher_resource::query_all(db.tables()).is_empty());
    assert_eq!(add_resources(&mut db, 77, vec![]).unwrap(), Vec::<i64>::new());
}

#[test]
fn add_resources_fails_whole_when_ids_run_out() {
    let mut db = DatabaseManager::from_rows(
        vec![launcher_row(1, "l", 1)],
        vec![resource(i64::MAX - 2, 1, "r", "C:\\r")],
        vec![],
    )
    .unwrap();
    assert_eq!(
        add_resources(&mut db, 1, vec![param(None, "C:\\a"), param(None, "C:\\b")]).unwrap_err(),
        OneClickLaunchError::StorageError
    );
    assert_eq!(launcher_resource::query_all(db.tables()).len(), 1);
    assert_eq!(add_resources(&mut db, 1, vec![param(None, "C:\\a")]).unwrap(), vec![i64::MAX - 1]);
    assert_eq!(
        add_resource(&mut db, 1, None, "C:\\b").unwrap_err(),
        OneClickLaunchError::StorageError
    );
}

#[test]
fn resource_rename_and_delete() {
    let mut db = DatabaseManager::new();
    let (l, _) = create_named_launcher(&mut db, "l").unwrap();
    let r1 = add_resource(&mut db, l, Some("a".to_string()), "C:\\a").unwrap();
    let r2 = add_resource(&mut db, l, Some("b".to_string()), "C:\\b").unwrap();
    modify_resource_name(&mut db, r1, "renamed").unwrap();
    modify_resource_name(&mut db, 99, "nobody").unwrap();
    assert_eq!(
        launcher_resource::query_all(db.tables()),
        vec![resource(r2, l, "b", "C:\\b"), resource(r1, l, "renamed", "C:\\a")]
    );
    delete_resource(&mut db, r2).unwrap();
    delete_resource(&mut db, 99).unwrap();
    assert_eq!(
        launcher_resource::query_all(db.tables()),
        vec![resource(r1, l, "renamed", "C:\\a")]
    );
}

#[test]
fn delete_cascades_to_resources() {
    let mut db = DatabaseManager::new();
    let (keep, _) = create_named_launcher(&mut db, "keep").unwrap();
    let (gone, _) = create_named_launcher(&mut db, "gone").unwrap();
    add_resource(&mut db, keep, None, "C:\\k1").unwrap();
    add_resource(&mut db, gone, None, "C:\\g1").unwrap();
    add_resource(&mut db, gone, None, "C:\\g2").unwrap();
    add_resource(&mut db, keep, None, "C:\\k2").unwrap();
    let payload = delete_launcher(&mut db, gone).unwrap();
    assert_eq!(payload.launcher_ids, vec![gone]);
    assert!(launcher_resource::query_by_launcher_id(db.tables(), gone).is_empty());
    let rest = launcher_resource::query_all(db.tables());
    assert_eq!(rest, vec![resource(4, keep, "k2", "C:\\k2"), resource(1, keep, "k1", "C:\\k1")]);
    let listing = query_launchers(&db).unwrap();
    assert_eq!(listing.len(), 1);
    assert_eq!(listing[0].id, keep);
    assert_eq!(listing[0].resources.len(), 2);
}

#[test]
fn delete_of_missing_launcher_changes_nothing() {
    let mut db = DatabaseManager::new();
    let (l, _) = create_named_launcher(&mut db, "l").unwrap();
    add_resource(&mut db, l, None, "C:\\a").unwrap();
    delete_launcher(&mut db, 99).unwrap();
    assert_eq!(query_launchers(&db).unwrap().len(), 1);
    assert_eq!(launcher_resource::query_all(db.tables()).len(), 1);
}

#[test]
fn copy_duplicates_launcher_and_resources() {
    let mut db = DatabaseManager::new();
    let (src, _) = create_named_launcher(&mut db, "src").unwrap();
    let (other, _) = create_named_launcher(&mut db, "other").unwrap();
    add_resource(&mut db, src, Some("one".to_string()), "C:\\one").unwrap();
    add_resource(&mut db, other, Some("x".to_string()), "C:\\x").unwrap();
    add_resource(&mut db, src, Some("two".to_string()), "https://two").unwrap();
    let (copy, payload) = copy_launcher(&mut db, src).unwrap();
    assert_eq!(copy, 3);
    assert_eq!(payload.launcher_ids, vec![src]);
    assert_eq!(launcher::find_by_id(db.tables(), copy).unwrap(), launcher_row(copy, "src-副本", 1));
    assert_eq!(launcher::find_by_id(db.tables(), src).unwrap(), launcher_row(src, "src", 1));
    assert_eq!(
        launcher_resource::query_by_launcher_id(db.tables(), src),
        vec![resource(3, src, "two", "https://two"), resource(1, src, "one", "C:\\one")]
    );
    assert_eq!(
        launcher_resource::query_by_launcher_id(db.tables(), copy),
        vec![resource(5, copy, "two", "https://two"), resource(4, copy, "one", "C:\\one")]
    );
    let ids: Vec<i64> = query_launchers(&db).unwrap().iter().map(|l| l.id).collect();
    assert_eq!(ids, vec![copy, src, other]);
}

#[test]
fn copy_of_missing_launcher_is_not_found() {
    let mut db = DatabaseManager::new();
    create_named_launcher(&mut db, "a").unwrap();
    assert_eq!(copy_launcher(&mut db, 5).unwrap_err(), OneClickLaunchError::NotFound);
    assert_eq!(query_launchers(&db).unwrap().len(), 1);
}

#[test]
fn copy_rolls_back_when_resource_ids_run_out() {
    let mut db = DatabaseManager::from_rows(
        vec![launcher_row(1, "src", 1)],
        vec![resource(5, 1, "a", "C:\\a"), resource(i64::MAX - 2, 1, "b", "C:\\b")],
        vec![],
    )
    .unwrap();
    assert_eq!(copy_launcher(&mut db, 1).unwrap_err(), OneClickLaunchError::StorageError);
    assert_eq!(launcher::query(db.tables()), vec![launcher_row(1, "src", 1)]);
    assert_eq!(launcher_resource::query_all(db.tables()).len(), 2);
    let (next, _) = create_named_launcher(&mut db, "next").unwrap();
    assert_eq!(next, 2);
}

#[test]
fn copy_of_empty_launcher_needs_no_resource_ids() {
    let mut db = DatabaseManager::from_rows(
        vec![launcher_row(1, "empty", 4), launcher_row(2, "full", 1)],
        vec![resource(i64::MAX - 1, 2, "b", "C:\\b")],
        vec![],
    )
    .unwrap();
    let (copy, _) = copy_launcher(&mut db, 1).unwrap();
    assert_eq!(launcher::find_by_id(db.tables(), copy).unwrap(), launcher_row(3, "empty-副本", 4));
    assert_eq!(copy_launcher(&mut db, 2).unwrap_err(), OneClickLaunchError::StorageError);
}

#[test]
fn query_launchers_nests_resources_newest_first() {
    let mut db = DatabaseManager::new();
    let (a, _) = create_named_launcher(&mut db, "a").unwrap();
    let (b, _) = create_named_launcher(&mut db, "b").unwrap();
    add_resource(&mut db, a, Some("a1".to_string()), "C:\\a1").unwrap();
    add_resource(&mut db, b, Some("b1".to_string()), "C:\\b1").unwrap();
    add_resource(&mut db, a, Some("a2".to_string()), "C:\\a2").unwrap();
    let listing = query_launchers(&db).unwrap();
    assert_eq!(listing.len(), 2);
    assert_eq!(listing[0].name, "a");
    let names: Vec<&str> = listing[0].resources.iter().map(|r| r.name.as_str()).collect();
    assert_eq!(names, vec!["a2", "a1"]);
    assert_eq!(listing[0].resources[0].launcher_id, a);
    assert_eq!(listing[1].resources.len(), 1);
    assert_eq!(listing[1].resources[0].id, 2);
}

#[test]
fn query_by_launcher_ids_takes_any_of_them() {
    let mut db = DatabaseManager::new();
    let (a, _) = create_named_launcher(&mut db, "a").unwrap();
    let (b, _) = create_named_launcher(&mut db, "b").unwrap();
    let (c, _) = create_named_launcher(&mut db, "c").unwrap();
    add_resource(&mut db, a, None, "C:\\a").unwrap();
    add_resource(&mut db, b, None, "C:\\b").unwrap();
    add_resource(&mut db, c, None, "C:\\c").unwrap();
    let rows = launcher_resource::query_by_launcher_ids(db.tables(), &vec![c, a]);
    let ids: Vec<i64> = rows.iter().map(|r| r.id).collect();
    assert_eq!(ids, vec![3, 1]);
    assert!(launcher_resource::query_by_launcher_ids(db.tables(), &vec![]).is_empty());
}

#[test]
fn launch_opens_resources_then_publishes() {
    let mut db = DatabaseManager::new();
    let (l, _) = create_named_launcher(&mut db, "l").unwrap();
    add_resource(&mut db, l, Some("one".to_string()), "C:\\one").unwrap();
    add_resource(&mut db, l, Some("two".to_string()), "https://two").unwrap();
    let actions = launch(&db, l).unwrap();
    assert_eq!(
        actions,
        vec![
            Action::OpenResource { name: "two".to_string(), path: "https://two".to_string() },
            Action::OpenResource { name: "one".to_string(), path: "C:\\one".to_string() },
            Action::Publish(EventMessage::LauncherLaunched(LauncherLaunchedPayload {
                launcher_ids: vec![l]
            })),
        ]
    );
    let missing = launch(&db, 9).unwrap();
    assert_eq!(
        missing,
        vec![Action::Publish(EventMessage::LauncherLaunched(LauncherLaunchedPayload {
            launcher_ids: vec![9]
        }))]
    );
}

#[test]
fn launch_resources_keeps_order() {
    let rows = vec![resource(1, 1, "a", "C:\\a"), resource(2, 1, "b", "C:\\b")];
    assert_eq!(
        launch_resources(&rows),
        vec![
            Action::OpenResource { name: "a".to_string(), path: "C:\\a".to_string() },
            Action::OpenResource { name: "b".to_string(), path: "C:\\b".to_string() },
        ]
    );
}

#[test]
fn from_rows_rejects_unsound_rows() {
    let unordered = DatabaseManager::from_rows(
        vec![launcher_row(2, "b", 1), launcher_row(1, "a", 1)],
        vec![],
        vec![],
    );
    assert_eq!(unordered.err(), Some(OneClickLaunchError::StorageError));
    let orphan = DatabaseManager::from_rows(
        vec![launcher_row(1, "a", 1)],
        vec![resource(1, 2, "r", "C:\\r")],
        vec![],
    );
    assert_eq!(orphan.err(), Some(OneClickLaunchError::StorageError));
    let twice = DatabaseManager::from_rows(
        vec![],
        vec![],
        vec![
            Settings { key: "k".to_string(), value: "1".to_string() },
            Settings { key: "k".to_string(), value: "2".to_string() },
        ],
    );
    assert_eq!(twice.err(), Some(OneClickLaunchError::StorageError));
    let full = DatabaseManager::from_rows(vec![launcher_row(i64::MAX, "a", 1)], vec![], vec![]);
    assert_eq!(full.err(), Some(OneClickLaunchError::StorageError));
}

#[test]
fn from_rows_continues_behind_the_last_id() {
    let mut db = DatabaseManager::from_rows(
        vec![launcher_row(3, "a", 1), launcher_row(10, "b", 2)],
        vec![resource(7, 10, "r", "C:\\r")],
        vec![],
    )
    .unwrap();
    let (l, _) = create_named_launcher(&mut db, "c").unwrap();
    assert_eq!(l, 11);
    assert_eq!(add_resource(&mut db, l, None, "C:\\x").unwrap(), 8);
}

#[test]
fn error_messages() {
    assert_eq!(OneClickLaunchError::NotFound.message(), "the referenced item does not exist");
    assert_eq!(OneClickLaunchError::StorageError.message(), "the store rejected the operation");
    assert_eq!(OneClickLaunchError::InvalidArgument.message(), "the input is empty or malformed");
    assert_eq!(
        OneClickLaunchError::ExternalOperationFailed.message(),
        "an external operation failed"
    );
    assert_eq!(
        OneClickLaunchError::SerializationError.message(),
        "the value could not be parsed"
    );
}

#[test]
fn transaction_changes_nothing_until_it_commits() {
    let mut db = DatabaseManager::new();
    let (l, _) = create_named_launcher(&mut db, "l").unwrap();
    add_resource(&mut db, l, None, "C:\\a").unwrap();

    let mut tx = db.begin();
    launcher::modify_launcher_sort(&mut tx, l, 9);
    assert_eq!(launcher::query(db.tables()), vec![launcher_row(l, "l", 1)]);
    assert_eq!(db.try_commit(tx), Ok(()));
    assert_eq!(launcher::query(db.tables()), vec![launcher_row(l, "l", 9)]);

    let mut dropped = db.begin();
    launcher::delete_by_id(&mut dropped, l);
    drop(dropped);
    assert_eq!(launcher::query(db.tables()).len(), 1);
}

#[test]
fn commit_refuses_orphaned_resources() {
    let mut db = DatabaseManager::new();
    let (l, _) = create_named_launcher(&mut db, "l").unwrap();
    add_resource(&mut db, l, None, "C:\\a").unwrap();

    let mut tx = db.begin();
    launcher::delete_by_id(&mut tx, l);
    assert_eq!(db.try_commit(tx), Err(OneClickLaunchError::StorageError));
    assert_eq!(launcher::query(db.tables()).len(), 1);
    assert_eq!(launcher_resource::query_all(db.tables()).len(), 1);

    let mut tx = db.begin();
    launcher::delete_by_id(&mut tx, l);
    launcher_resource::delete_by_launcher(&mut tx, l);
    assert_eq!(db.try_commit(tx), Ok(()));
    assert!(launcher::query(db.tables()).is_empty());
    assert!(launcher_resource::query_all(db.tables()).is_empty());
}

#[test]
fn store_level_create_checks_the_owner() {
    let mut db = DatabaseManager::new();
    let mut tx = db.begin();
    assert_eq!(
        launcher_resource::create(&mut tx, 1, "r", "C:\\r").unwrap_err(),
        OneClickLaunchError::NotFound
    );
    assert_eq!(launcher::create(&mut tx, "l", Some(-4)).unwrap(), 1);
    assert_eq!(launcher_resource::create(&mut tx, 1, "r", "C:\\r").unwrap(), 1);
    launcher_resource::modify_name(&mut tx, 1, "renamed");
    assert_eq!(db.try_commit(tx), Ok(()));
    assert_eq!(launcher::query(db.tables()), vec![launcher_row(1, "l", -4)]);
    assert_eq!(
        launcher_resource::query_all(db.tables()),
        vec![resource(1, 1, "renamed", "C:\\r")]
    );
}
