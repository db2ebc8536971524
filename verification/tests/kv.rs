use pagoda_runtime::storage::kv::etcd::{EtcdBucket, EtcdStore, EtcdWrite};
use pagoda_runtime::storage::kv::file::{
    AgedFile, Directory, FileChange, FileStore, FoundFile, PathState, WatchAction,
    WatchedPath, DEFAULT_TTL, MIN_KEEP_ALIVE, TEMP_FILE_PREFIX,
};
use pagoda_runtime::storage::kv::mem::{MemoryBucketRef, MemoryEvent, MemoryStore};
use pagoda_runtime::storage::kv::nats::{
    single_name, NATSBucket, NATSStore, OpenError, Operation, WatchedEntry, WriteCall, WriteReply,
    WriteStep,
};
use pagoda_runtime::storage::kv::path::{join_path, plain_path, relative_to};
use pagoda_runtime::storage::kv::{Key, StoreError, StoreOutcome, WatchEvent};
use pagoda_runtime::protocols::PortNameId;
use pagoda_runtime::slug::Slug;
use std::sync::Arc;

fn key(name: &str) -> Key {
    Key::new(name.to_string())
}

fn bytes(text: &str) -> Arc<Vec<u8>> {
    Arc::new(text.as_bytes().to_vec())
}

#[test]
fn mem_test_entries_full_path() {
    let mut m = MemoryStore::new();
    let bucket = m.get_or_create_bucket("bucket1");
    bucket.insert(&mut m, &key("key1"), bytes("value1"), 0).unwrap();
    bucket.insert(&mut m, &key("key2"), bytes("value2"), 0).unwrap();
    let entries = bucket.entries(&m).unwrap();
    assert_eq!(entries.len(), 2);
    let keys: Vec<&str> = entries.iter().map(|(k, _)| k.as_ref()).collect();
    assert!(keys.contains(&"bucket1/key1"));
    assert!(keys.contains(&"bucket1/key2"));
}

#[test]
fn insert_idempotent_and_overwrite() {
    let mut m = MemoryStore::new();
    let b = m.get_or_create_bucket("b");
    let k = key("k");

    let (outcome, event) = b.insert(&mut m, &k, bytes("v0"), 0).unwrap();
    assert_eq!(outcome, StoreOutcome::Created(0));
    assert!(matches!(event, Some(MemoryEvent::Put { .. })));
    let (outcome, event) = b.insert(&mut m, &k, bytes("v0"), 0).unwrap();
    assert_eq!(outcome, StoreOutcome::Exists(0));
    assert!(event.is_none());
    let (outcome, event) = b.insert(&mut m, &k, bytes("v1"), 1).unwrap();
    assert_eq!(outcome, StoreOutcome::Created(1));
    assert!(event.is_none());
    assert_eq!(b.get(&m, &k).unwrap().unwrap(), bytes("v1"));
}

#[test]
fn get_on_missing_bucket_is_ok_none() {
    let mut m = MemoryStore::new();
    let b = m.get_or_create_bucket("only");
    let ghost = MemoryBucketRef { name: "no_such".to_string() };
    assert!(ghost.get(&m, &key("k")).unwrap().is_none());
    assert!(b.get(&m, &key("k")).unwrap().is_none());
    assert!(m.get_bucket("no_such").is_none());
    assert!(m.get_bucket("only").is_some());
    for error in [
        ghost.insert(&mut m, &key("k"), bytes("v"), 0).err().unwrap(),
        ghost.delete(&mut m, &key("k")).err().unwrap(),
        ghost.entries(&m).err().unwrap(),
        ghost.watch(&m).err().unwrap(),
    ] {
        assert!(matches!(error, StoreError::MissingBucket(name) if name == "no_such"));
    }
}

#[test]
fn delete_only_emits_when_present() {
    let mut m = MemoryStore::new();
    let b = m.get_or_create_bucket("b");
    b.insert(&mut m, &key("k"), bytes("v"), 0).unwrap();
    assert!(matches!(
        b.delete(&mut m, &key("k")).unwrap(),
        Some(MemoryEvent::Delete { key }) if key == "k"
    ));
    assert!(b.delete(&mut m, &key("k")).unwrap().is_none());
    assert!(b.get(&m, &key("k")).unwrap().is_none());
}

#[test]
fn buckets_are_separate() {
    let mut m = MemoryStore::new();
    let a = m.get_or_create_bucket("a");
    let b = m.get_or_create_bucket("b");
    let again = m.get_or_create_bucket("a");
    a.insert(&mut m, &key("k"), bytes("in a"), 3).unwrap();
    assert_eq!(again.get(&m, &key("k")).unwrap().unwrap(), bytes("in a"));
    assert!(b.get(&m, &key("k")).unwrap().is_none());
    let other = MemoryStore::new();
    assert_ne!(m.connection_id(), other.connection_id());
}

#[test]
fn watch_receives_new_puts() {
    let mut m = MemoryStore::new();
    let b = m.get_or_create_bucket("w");
    b.insert(&mut m, &key("old"), bytes("0"), 0).unwrap();
    let (snapshot, mut watch) = b.watch(&m).unwrap();
    assert_eq!(snapshot.len(), 1);
    assert!(matches!(&snapshot[0], WatchEvent::Put(kv) if kv.key() == "old"));

    let mut got = Vec::new();
    for name in ["a", "b", "c", "old"] {
        let (_, event) = b.insert(&mut m, &key(name), bytes(name), 9).unwrap();
        if let Some(event) = event {
            if let Some(WatchEvent::Put(kv)) = watch.step(event) {
                assert_eq!(*kv.value(), name.as_bytes());
                got.push(kv.key());
            }
        }
    }
    assert_eq!(got, vec!["a".to_string(), "b".to_string(), "c".to_string()]);

    let put = |name: &str| MemoryEvent::Put { key: name.to_string(), value: bytes("x") };
    assert!(watch.step(put("a")).is_none());
    let deleted = watch.step(MemoryEvent::Delete { key: "a".to_string() });
    assert!(matches!(deleted, Some(WatchEvent::Delete(k)) if k.as_ref() == "a"));
    assert!(matches!(watch.step(put("a")), Some(WatchEvent::Put(_))));
}

#[test]
fn names_are_escaped() {
    assert_eq!(key("k").url_safe().as_ref(), "k");
    assert_eq!(key("key1/multi/part").url_safe().as_ref(), "key1%2Fmulti%2Fpart");
    assert_eq!(key("a-_.~ é%").url_safe().as_ref(), "a%2D%5F%2E%7E%20%C3%A9%25");
    for name in ["", "plain", "a/b", "100%", "%2F", "日本 é", "\u{0}\u{7f}"] {
        assert_eq!(Key::from_url_safe(key(name).url_safe().as_ref()), key(name));
    }
    assert_eq!(Key::from_url_safe("%2f%2F%zz%2").as_ref(), "//%zz%2");
    assert_eq!(Key::from_url_safe("%FF").as_ref(), "\u{fffd}");
}

fn told(event: WatchEvent) -> (bool, String, Vec<u8>) {
    match event {
        WatchEvent::Put(kv) => (true, kv.key(), kv.value().to_vec()),
        WatchEvent::Delete(k) => (false, k.as_ref().to_string(), Vec::new()),
    }
}

#[test]
fn watch_tells_of_a_whole_run() {
    let mut m = MemoryStore::new();
    let b = m.get_or_create_bucket("w");
    b.insert(&mut m, &key("a"), bytes("1"), 0).unwrap();
    let (snapshot, mut watch) = b.watch(&m).unwrap();
    let mut stream: Vec<(bool, String, Vec<u8>)> = snapshot.into_iter().map(told).collect();
    let mut run = |event: Option<MemoryEvent>| {
        stream.extend(event.and_then(|event| watch.step(event)).map(told));
    };
    run(b.insert(&mut m, &key("a"), bytes("2"), 1).unwrap().1);
    run(b.insert(&mut m, &key("b/c"), bytes("3"), 0).unwrap().1);
    run(b.delete(&mut m, &key("a")).unwrap());
    run(b.delete(&mut m, &key("a")).unwrap());
    run(b.insert(&mut m, &key("a"), bytes("4"), 0).unwrap().1);
    run(b.insert(&mut m, &key("a"), bytes("4"), 0).unwrap().1);
    let expected = [(true, "a", "1"), (true, "b/c", "3"), (false, "a", ""), (true, "a", "4")];
    assert_eq!(
        stream,
        expected.map(|(put, k, v)| (put, k.to_string(), v.as_bytes().to_vec())).to_vec()
    );
}

fn store() -> FileStore {
    FileStore::new("/root".to_string())
}

fn open(store: &mut FileStore, name: &str, ttl: Option<u64>) -> String {
    store
        .get_or_create_bucket(name, ttl, PathState::Missing, Ok(()), "/private/root".to_string())
        .unwrap()
}

#[test]
fn file_test_entries_full_path() {
    let mut store = store();
    let path = open(&mut store, "v1/tests", None);
    assert_eq!(path, "/root/v1/tests");
    let directory = store.directory(&path).unwrap();
    let file = |name: &str| FoundFile {
        path: format!("{path}/{name}"),
        name: name.to_string(),
        is_file: true,
        canonical: format!("/private/root/v1/tests/{name}"),
    };
    let items = vec![
        Ok((file(key("key1/multi/part").url_safe().as_ref()), Ok(bytes("value1")))),
        Ok((file(key("key2").url_safe().as_ref()), Ok(bytes("value2")))),
    ];
    let entries = directory.entries(&items).unwrap();
    assert_eq!(entries.len(), 2);
    assert_eq!(entries.get(&"v1/tests/key1/multi/part".to_string()), Some(&bytes("value1")));
    assert_eq!(entries.get(&"v1/tests/key2".to_string()), Some(&bytes("value2")));
}

#[test]
fn insert_get_roundtrip_and_missing() {
    let mut store = store();
    let path = open(&mut store, "b", None);
    let directory = store.directory_mut(&path).unwrap();
    let full = directory.file_path(&key("a/b"));
    assert_eq!(full, "/root/b/a%2Fb");
    let outcome = directory.insert(&key("a/b"), "/root/b/.t", Ok(()), Ok(())).unwrap();
    assert_eq!(outcome, StoreOutcome::Created(0));
    assert_eq!(directory.keep_alive(), vec![full.clone()]);
    assert_eq!(directory.get(&key("a/b"), Some(Ok(bytes("v")))).unwrap(), Some(bytes("v")));
    assert_eq!(directory.get(&key("missing"), None).unwrap(), None);
    assert!(matches!(
        directory.get(&key("a/b"), Some(Err("denied".to_string()))).unwrap_err(),
        StoreError::FilesystemError(text) if text == "/root/b/a%2Fb: denied"
    ));
}

#[test]
fn failed_writes_own_nothing() {
    let mut directory = Directory::new("/r".to_string(), "/r/b".to_string(), 0);
    assert!(matches!(
        directory.insert(&key("k"), "/t", Err("full".to_string()), Ok(())).unwrap_err(),
        StoreError::FilesystemError(text) if text == "writing temp /t: full"
    ));
    assert!(matches!(
        directory.insert(&key("k"), "/t", Ok(()), Err("gone".to_string())).unwrap_err(),
        StoreError::FilesystemError(text) if text == "renaming /t -> /r/b/k: gone"
    ));
    assert!(directory.keep_alive().is_empty());
    assert_eq!(directory.ttl(), MIN_KEEP_ALIVE);
    assert_eq!(directory.to_string(), "/r/b");
    assert_eq!(directory.root(), "/r");
}

#[test]
fn delete_missing_returns_error() {
    let mut directory = Directory::new("/r".to_string(), "/r/b".to_string(), DEFAULT_TTL);
    let err = directory.delete(&key("absent"), false).unwrap_err();
    assert!(matches!(err, StoreError::MissingKey(path) if path == "/r/b/absent"));

    directory.insert(&key("present"), "/t", Ok(()), Ok(())).unwrap();
    assert_eq!(directory.delete(&key("present"), true).unwrap(), "/r/b/present");
    assert!(directory.keep_alive().is_empty());
    assert!(Directory::deleted("/p", Ok(())).is_ok());
    assert!(matches!(
        Directory::deleted("/p", Err("busy".to_string())).unwrap_err(),
        StoreError::FilesystemError(text) if text == "/p: busy"
    ));
}

#[test]
fn bucket_must_be_directory() {
    let mut store = store();
    let err = store
        .get_or_create_bucket("not_dir", None, PathState::Other, Ok(()), "/r".to_string())
        .unwrap_err();
    assert!(matches!(err, StoreError::FilesystemError(text) if text == "Bucket name is not a directory"));
    let err = store.get_bucket("not_dir", PathState::Other, "/r".to_string()).unwrap_err();
    assert!(matches!(err, StoreError::FilesystemError(_)));
    let err = store
        .get_or_create_bucket("x", None, PathState::Missing, Err("ro".to_string()), "/r".to_string())
        .unwrap_err();
    assert!(matches!(err, StoreError::FilesystemError(text) if text == "ro"));
    assert_eq!(store.get_bucket("x", PathState::Missing, "/r".to_string()).unwrap(), None);
    let found = store.get_bucket("x", PathState::Directory, "/r".to_string()).unwrap();
    assert_eq!(found.as_deref(), Some("/root/x"));
    let again = store.get_bucket("x", PathState::Missing, "/r".to_string()).unwrap();
    assert_eq!(again.as_deref(), Some("/root/x"));
}

#[test]
fn shutdown_removes_owned_files() {
    let mut store = store();
    let path = open(&mut store, "b", None);
    store.directory_mut(&path).unwrap().insert(&key("k"), "/t", Ok(()), Ok(())).unwrap();
    let mut dirs = store.shutdown();
    assert_eq!(dirs.len(), 1);
    assert_eq!(dirs[0].delete_owned_files(), vec!["/root/b/k".to_string()]);
    assert!(dirs[0].delete_owned_files().is_empty());
    assert!(store.directory(&path).is_none());
    assert!(Directory::deletion_outcome(&vec![]).is_ok());
    assert_eq!(
        Directory::deletion_outcome(&vec!["a: x".to_string(), "b: y".to_string()]).unwrap_err(),
        "a: x, b: y"
    );
}

#[test]
fn entries_skips_temp_files() {
    let directory = Directory::new("/r".to_string(), "/r/b".to_string(), DEFAULT_TTL);
    let file = |name: &str, is_file: bool, inside: bool| FoundFile {
        path: format!("/r/b/{name}"),
        name: name.to_string(),
        is_file,
        canonical: format!("{}/{name}", if inside { "/r/b" } else { "/elsewhere" }),
    };
    let items = vec![
        Ok((file(&format!("{TEMP_FILE_PREFIX}xyz"), true, true), Ok(bytes("junk")))),
        Ok((file("dir", false, true), Ok(bytes("junk")))),
        Ok((file("outside", true, false), Err("unread".to_string()))),
        Ok((file("real", true, true), Ok(bytes("v")))),
    ];
    let entries = directory.entries(&items).unwrap();
    assert_eq!(entries.len(), 1);
    assert!(entries.contains(&"b/real".to_string()));

    let unreadable = vec![Ok((file("real", true, true), Err("io".to_string())))];
    assert!(matches!(
        directory.entries(&unreadable).err().unwrap(),
        StoreError::FilesystemError(text) if text == "/r/b: io"
    ));
    let broken = vec![Err("entry".to_string())];
    assert!(matches!(
        directory.entries(&broken).err().unwrap(),
        StoreError::FilesystemError(text) if text == "entry"
    ));
}

#[test]
fn changed_files_are_told_of() {
    let directory = Directory::new("/r".to_string(), "/r/b".to_string(), DEFAULT_TTL);
    let changed = |path: &str| WatchedPath {
        path: path.to_string(),
        name: path.rsplit('/').next().map(|s| s.to_string()),
        canonical: path.to_string(),
    };
    let file = changed("/r/b/a%2Fb");
    for change in [FileChange::Created, FileChange::ContentChanged, FileChange::RenamedTo] {
        let action = directory.watch(&file, change);
        match Directory::watch_event(action, Ok(bytes("v"))) {
            Some(WatchEvent::Put(kv)) => {
                assert_eq!(kv.key(), "b/a/b");
                assert_eq!(kv.value(), bytes("v"));
            }
            _ => panic!("expected a value"),
        }
    }
    let unread = directory.watch(&file, FileChange::Created);
    assert!(Directory::watch_event(unread, Err("gone".to_string())).is_none());
    let action = directory.watch(&file, FileChange::Removed);
    assert!(matches!(
        Directory::watch_event(action, Err(String::new())),
        Some(WatchEvent::Delete(k)) if k.as_ref() == "b/a/b"
    ));
    assert!(matches!(directory.watch(&file, FileChange::Other), WatchAction::Ignore));
    let gone = directory.watch(&changed("/r/v1//tests/k"), FileChange::Removed);
    assert!(matches!(
        Directory::watch_event(gone, Err(String::new())),
        Some(WatchEvent::Delete(k)) if k.as_ref() == "v1//tests/k"
    ));
    for ignored in [
        changed("/r/b"),
        changed("/r/b/.dyn-tmp-1"),
        changed("/elsewhere/x"),
    ] {
        assert!(matches!(directory.watch(&ignored, FileChange::Created), WatchAction::Ignore));
    }
}

#[test]
fn stale_files_expire() {
    let directory = Directory::new("/r".to_string(), "/r/b".to_string(), MIN_KEEP_ALIVE);
    let file = |name: &str, is_file: bool, modified: Option<i128>| AgedFile {
        path: name.to_string(),
        is_file,
        modified,
    };
    let now = i128::from(MIN_KEEP_ALIVE) + 100;
    let files = vec![
        file("old", true, Some(99)),
        file("edge", true, Some(100)),
        file("dir", false, Some(0)),
        file("unknown", true, None),
        file("older", true, Some(0)),
    ];
    assert_eq!(
        directory.delete_expired_files(&files, now),
        vec!["old".to_string(), "older".to_string()]
    );
    let early = vec![
        file("before", true, Some(-i128::from(MIN_KEEP_ALIVE))),
        file("first", true, Some(i128::MIN)),
        file("last", true, Some(i128::MAX)),
    ];
    assert_eq!(
        directory.delete_expired_files(&early, 1),
        vec!["before".to_string(), "first".to_string()]
    );
    assert_eq!(directory.delete_expired_files(&early, 0), vec!["first".to_string()]);
}

#[test]
fn keep_alive_follows_the_shortest_ttl() {
    let mut store = store();
    assert_eq!(store.shortest_ttl(), DEFAULT_TTL);
    assert_eq!(store.expiry_interval(), DEFAULT_TTL / 3);
    open(&mut store, "short", Some(2 * MIN_KEEP_ALIVE));
    open(&mut store, "long", Some(60 * MIN_KEEP_ALIVE));
    assert_eq!(store.shortest_ttl(), 2 * MIN_KEEP_ALIVE);
    assert_eq!(store.expiry_interval(), MIN_KEEP_ALIVE);
    assert_ne!(store.connection_id(), FileStore::new(String::new()).connection_id());
}

#[test]
fn files_of_every_bucket_are_kept_alive() {
    let mut store = store();
    assert!(store.keep_alive().is_empty());
    for name in ["a", "b"] {
        let path = open(&mut store, name, None);
        store.directory_mut(&path).unwrap().insert(&key("k"), "/t", Ok(()), Ok(())).unwrap();
    }
    let mut kept = store.keep_alive();
    kept.sort();
    assert_eq!(kept, vec!["/root/a/k".to_string(), "/root/b/k".to_string()]);
    let mut paths: Vec<String> = store.directories().iter().map(|d| d.to_string()).collect();
    paths.sort();
    assert_eq!(paths, vec!["/root/a".to_string(), "/root/b".to_string()]);
}

#[test]
fn same_directory_is_one_bucket() {
    let mut store = store();
    let first = open(&mut store, "a", None);
    for name in ["a/", "./a", "/root//a", "/root/a/."] {
        let again = open(&mut store, name, Some(1));
        assert_eq!(store.directory(&again).unwrap().to_string(), first);
    }
    assert_eq!(store.directories().len(), 1);
    assert_ne!(open(&mut store, "../root/a", None), first);
    assert_eq!(store.directories().len(), 2);
}

#[test]
fn paths_are_compared_by_their_parts() {
    assert_eq!(plain_path("/a//b/./c/"), "/a/b/c");
    assert_eq!(plain_path("./a"), "./a");
    assert_eq!(plain_path("/./a/.."), "/a/..");
    assert_eq!(plain_path("/"), "/");
    assert_eq!(plain_path(""), "");
    assert_eq!(plain_path("a.b/.c"), "a.b/.c");
}

#[test]
fn what_is_below_a_root_is_told() {
    assert_eq!(relative_to("/r", "/r/b/k"), Some("b/k".to_string()));
    assert_eq!(relative_to("/r/", "/r//b/./k/"), Some("b/./k".to_string()));
    assert_eq!(relative_to("/r", "/r/a//b"), Some("a//b".to_string()));
    assert_eq!(relative_to("/./r", "/r/./a/."), Some("a".to_string()));
    assert_eq!(relative_to(".", "./a"), Some("a".to_string()));
    assert_eq!(relative_to("", "/r//b/"), Some("/r//b".to_string()));
    assert_eq!(relative_to("", "/"), Some("/".to_string()));
    assert_eq!(relative_to("", ""), Some(String::new()));
    assert_eq!(relative_to("/", "/b"), Some("b".to_string()));
    assert_eq!(relative_to("/r", "/r"), Some(String::new()));
    assert_eq!(relative_to("", "/r/b"), Some("/r/b".to_string()));
    assert_eq!(relative_to("/r", "/root/b"), None);
    assert_eq!(relative_to("/r", "r/b"), None);
    assert_eq!(relative_to("/r/b", "/r"), None);
}

#[test]
fn relative_paths_are_those_of_the_standard_library() {
    let texts = [
        "", "/", "//", ".", "./", "/.", "./.", "a", "a/", "a//b", "/a", "/a/b", "/a//b/", "/a/./b/.",
        "./a", "./a/b", "/./a", "..", "../a", "/a/..", "a/.b", "a/b.", "/a/b/c//d/./e/",
    ];
    for root in texts {
        for path in texts {
            let expected = std::path::Path::new(path)
                .strip_prefix(root)
                .ok()
                .map(|rest| rest.display().to_string());
            assert_eq!(relative_to(root, path), expected, "{root:?} {path:?}");
            let joined = std::path::Path::new(root).join(path).display().to_string();
            assert_eq!(join_path(root, path), joined, "{root:?} {path:?}");
            let same = std::path::Path::new(path) == std::path::Path::new(root);
            assert_eq!(plain_path(path) == plain_path(root), same, "{root:?} {path:?}");
        }
    }
}

#[test]
fn written_files_are_listed_below_their_bucket() {
    for (bucket, listed) in [("v1//tests/", "v1/tests/a/b"), ("50%", "50%/a/b"), ("", "a/b")] {
        let path = join_path("/r", bucket);
        let directory = Directory::new("/r".to_string(), path, DEFAULT_TTL);
        let file = FoundFile {
            path: directory.file_path(&key("a/b")),
            name: key("a/b").url_safe().as_ref().to_string(),
            is_file: true,
            canonical: plain_path(&directory.file_path(&key("a/b"))),
        };
        let entries = directory.entries(&vec![Ok((file, Ok(bytes("v"))))]).unwrap();
        assert_eq!(entries.get(&listed.to_string()), Some(&bytes("v")));
    }
}

#[test]
fn temporary_names_tell_time_and_number() {
    let directory = Directory::new("/r".to_string(), "/r/b".to_string(), DEFAULT_TTL);
    assert_eq!(
        directory.temp_path_for(255, 4096),
        format!("/r/b/{TEMP_FILE_PREFIX}{:032x}-{:016x}", 255, 4096)
    );
    assert_eq!(
        directory.temp_path_for(u128::MAX, u64::MAX),
        format!("/r/b/{TEMP_FILE_PREFIX}{:032x}-{:016x}", u128::MAX, u64::MAX)
    );
    assert!(directory.temp_path(0).starts_with(&format!("/r/b/{TEMP_FILE_PREFIX}{:032x}-", 0)));
    assert_ne!(directory.temp_path(0), directory.temp_path(0));
    assert_eq!(join_path("/a/", "b"), "/a/b");
    assert_eq!(join_path("", "b"), "b");
    assert_eq!(join_path("/a", "/b"), "/b");
}

#[test]
fn etcd_keys_start_with_the_bucket() {
    let store = EtcdStore::new(Arc::new("client"));
    let bucket = store.get_or_create_bucket("v1/models");
    assert_eq!(bucket.full_key(&key("a")), "v1/models/a");
    assert_eq!(bucket.prefix(), "v1/models/");
    assert_eq!(**bucket.client(), "client");
    assert_eq!(store.get_bucket("b").unwrap().prefix(), "b/");
}

type Etcd = EtcdBucket<u8>;

#[test]
fn etcd_writes_report_revisions() {
    assert_eq!(Etcd::insert(0), EtcdWrite::Create);
    assert_eq!(Etcd::insert(3), EtcdWrite::Update);
    assert_eq!(Etcd::create_path(Ok(None)).unwrap(), StoreOutcome::Created(1));
    assert_eq!(Etcd::create_path(Ok(Some(5))).unwrap(), StoreOutcome::Exists(5));
    assert!(matches!(
        Etcd::create_path(Err("down".to_string())).unwrap_err(),
        StoreError::EtcdError(text) if text == "down"
    ));
    assert!(Etcd::update_path(&key("k"), Ok(vec![1])).is_ok());
    assert!(matches!(
        Etcd::update_path(&key("k"), Ok(vec![])).unwrap_err(),
        StoreError::MissingKey(name) if name == "k"
    ));
    assert!(matches!(
        Etcd::update_path(&key("k"), Err("down".to_string())).unwrap_err(),
        StoreError::EtcdError(_)
    ));
    assert_eq!(Etcd::updated(Ok(None), 4).unwrap(), StoreOutcome::Created(1));
    assert_eq!(Etcd::updated(Ok(Some(5)), 4).unwrap(), StoreOutcome::Created(4));
    assert_eq!(Etcd::updated(Ok(Some(9)), 4).unwrap(), StoreOutcome::Created(10));
    assert_eq!(Etcd::updated(Ok(Some(-2)), 4).unwrap(), StoreOutcome::Created(u64::MAX));
    assert_eq!(
        Etcd::updated(Ok(Some(-1)), u64::MAX - 1).unwrap(),
        StoreOutcome::Created(u64::MAX - 1)
    );
    assert!(Etcd::updated(Err("down".to_string()), 4).is_err());
}

#[test]
fn etcd_reads_and_watches() {
    assert_eq!(Etcd::get(Ok(vec![bytes("a"), bytes("b")])).unwrap(), Some(bytes("a")));
    assert_eq!(Etcd::get(Ok(vec![])).unwrap(), None);
    assert!(Etcd::get(Err("e".to_string())).is_err());
    assert!(Etcd::delete(Ok(())).is_ok());
    assert!(matches!(
        Etcd::delete(Err("e".to_string())).unwrap_err(),
        StoreError::EtcdError(text) if text == "e"
    ));
    assert!(matches!(
        Etcd::watch("ключ".as_bytes().to_vec(), Some(bytes("v"))),
        Some(WatchEvent::Put(kv)) if kv.key() == "ключ"
    ));
    assert!(matches!(
        Etcd::watch(b"k".to_vec(), None),
        Some(WatchEvent::Delete(k)) if k.as_ref() == "k"
    ));
    assert!(Etcd::watch(vec![0xff], None).is_none());
    let list = vec![
        (b"b/k".to_vec(), bytes("1")),
        (vec![b'x', 0xff], bytes("2")),
        (b"b/k".to_vec(), bytes("3")),
    ];
    let entries = Etcd::entries(Ok(list)).unwrap();
    assert_eq!(entries.len(), 2);
    assert_eq!(entries.get(&"b/k".to_string()), Some(&bytes("3")));
    assert_eq!(entries.get(&"x\u{fffd}".to_string()), Some(&bytes("2")));
    assert!(Etcd::entries(Err("e".to_string())).is_err());
}

#[test]
fn nats_buckets_are_named_by_namespace_and_slug() {
    let store = NATSStore::new(1u8, PortNameId::from("ns.sg.pn"));
    assert_eq!(store.qualified("My Bucket/1"), "ns_my_bucket_1");
    assert_eq!(*store.client(), 1);
    assert_eq!(single_name("a", &Slug::slugify("b")), "a_b");
}

type Nats = NATSStore<u8>;

#[test]
fn nats_buckets_are_created_or_opened() {
    let q = || "ns_b".to_string();
    assert_eq!(Nats::get_or_create_key_value(q(), Ok(1), Err(OpenError::NoBucket)).unwrap(), 1);
    let e = || Err::<u8, String>("exists".to_string());
    assert_eq!(Nats::get_or_create_key_value(q(), e(), Ok(2)).unwrap(), 2);
    assert!(matches!(
        Nats::get_or_create_key_value(q(), e(), Err(OpenError::NoBucket)).unwrap_err(),
        StoreError::KeyValueError(why, bucket)
            if why == "bucket disappeared between create and get" && bucket == "ns_b"
    ));
    assert!(matches!(
        Nats::get_key_value::<u8>(q(), Err(OpenError::Other("x".to_string()))).unwrap_err(),
        StoreError::KeyValueError(why, bucket) if why == "x" && bucket == "ns_b"
    ));
    assert_eq!(Nats::get_key_value::<u8>(q(), Err(OpenError::NoBucket)).unwrap(), None);
    assert_eq!(Nats::get_key_value(q(), Ok(3u8)).unwrap(), Some(3));
}

type NatsBucket = NATSBucket<u8>;

fn write(call: WriteCall, reply: WriteReply) -> WriteStep {
    NatsBucket::write_step(&key("k"), call, reply)
}

#[test]
fn nats_creates_report_what_is_there() {
    assert_eq!(NatsBucket::insert(0), WriteCall::Create);
    assert!(matches!(
        write(WriteCall::Create, WriteReply::Written(7)),
        WriteStep::Done(Ok(StoreOutcome::Created(7)))
    ));
    assert!(matches!(
        write(WriteCall::Create, WriteReply::AlreadyExists),
        WriteStep::Call(WriteCall::LookAfterCreate)
    ));
    assert!(matches!(
        write(WriteCall::LookAfterCreate, WriteReply::Found(4)),
        WriteStep::Done(Ok(StoreOutcome::Exists(4)))
    ));
    assert!(matches!(
        write(WriteCall::LookAfterCreate, WriteReply::NotFound),
        WriteStep::Done(Err(StoreError::Retry))
    ));
    assert!(matches!(
        write(WriteCall::Create, WriteReply::Failed("x".to_string())),
        WriteStep::Done(Err(StoreError::NATSError(text))) if text == "x"
    ));
}

#[test]
fn nats_updates_resynchronise() {
    assert_eq!(NatsBucket::insert(6), WriteCall::Update(6));
    assert!(matches!(
        write(WriteCall::Update(6), WriteReply::WrongLastRevision),
        WriteStep::Call(WriteCall::LookAfterUpdate)
    ));
    assert!(matches!(
        write(WriteCall::LookAfterUpdate, WriteReply::Found(9)),
        WriteStep::Call(WriteCall::UpdateAgain(10))
    ));
    assert!(matches!(
        write(WriteCall::LookAfterUpdate, WriteReply::NotFound),
        WriteStep::Call(WriteCall::Create)
    ));
    assert!(matches!(
        write(WriteCall::UpdateAgain(10), WriteReply::Failed("no".to_string())),
        WriteStep::Done(Err(StoreError::NATSError(text)))
            if text == "Error during update of key k after resync: no"
    ));
    assert!(matches!(
        write(WriteCall::UpdateAgain(10), WriteReply::Written(11)),
        WriteStep::Done(Ok(StoreOutcome::Created(11)))
    ));
}

#[test]
fn nats_reads_and_watches() {
    assert_eq!(NatsBucket::get(Ok(Some(bytes("v")))).unwrap(), Some(bytes("v")));
    assert!(NatsBucket::get(Err("e".to_string())).is_err());
    assert!(NatsBucket::delete(Ok(())).is_ok());
    assert!(matches!(
        NatsBucket::delete(Err("e".to_string())).unwrap_err(),
        StoreError::NATSError(text) if text == "e"
    ));
    let entry = |operation| {
        Ok(WatchedEntry { key: "k".to_string(), value: bytes("v"), operation })
    };
    assert!(matches!(
        NatsBucket::watch(entry(Operation::Put)),
        Some(WatchEvent::Put(kv)) if kv.key() == "k" && kv.value() == bytes("v")
    ));
    for operation in [Operation::Delete, Operation::Purge] {
        assert!(matches!(
            NatsBucket::watch(entry(operation)),
            Some(WatchEvent::Delete(k)) if k.as_ref() == "k"
        ));
    }
    assert!(NatsBucket::watch(Err("fatal".to_string())).is_none());
    let items = vec![
        Ok(("a".to_string(), Ok(Some(bytes("1"))))),
        Ok(("b".to_string(), Ok(None))),
        Ok(("c".to_string(), Err("e".to_string()))),
        Err("e".to_string()),
    ];
    let entries = NatsBucket::entries(&items);
    assert_eq!(entries.len(), 1);
    assert_eq!(entries.get(&"a".to_string()), Some(&bytes("1")));
    assert_eq!(*NatsBucket::new(2).store(), 2);
}
