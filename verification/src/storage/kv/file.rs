//! Buckets as directories, with a file for each key.
//!
//! Here stands what the backend decides; reading and writing files is left to its driver.

use vstd::prelude::*;
use vstd::string::*;

use dashmap::{DashMap, DashSet};

use crate::dash::{
    add_member, clear_members, get_number, list_members, members, new_members, new_numbered,
    numbered, remove_member, set_number,
};
use crate::dict::Dict;
use crate::ids::random_u64;
use crate::storage::kv::encoding::{
    has_no_escape, law_escaped_name_has_no_slash, law_escaped_name_reads_back, law_path_reads_back,
    lemma_safe_text_is_a_name, safe_text, unsafe_text,
};
use crate::storage::kv::path::{
    inner_parts, is_part_name, join_path, law_plain_path_leads_from_root,
    lemma_inner_parts_are_names, part_below, path_below, plain, plain_path, relative_to,
};
use crate::storage::kv::{Key, KeyValue, StoreError, StoreOutcome, WatchEvent};
use crate::text::{
    concat2, join_all, joined, padded_hex, same_text, starts_with, to_padded_hex, views,
};

use std::sync::Arc;

verus! {

/// How long, in nanoseconds, a file is kept that nobody keeps alive.
pub const DEFAULT_TTL: u64 = 10_000_000_000;

/// The least time, in nanoseconds, between two rounds of keeping files alive.
pub const MIN_KEEP_ALIVE: u64 = 1_000_000_000;

/// How the names of files start that are still being written.
pub const TEMP_FILE_PREFIX: &'static str = ".dyn-tmp-";

/// The greater of two numbers.
pub open spec fn greater(a: u64, b: u64) -> u64 {
    if a >= b {
        a
    } else {
        b
    }
}

/// An error of the file system, in words.
pub fn to_fs_err(text: String) -> (error: StoreError)
    ensures
        error == StoreError::FilesystemError(text),
{
    StoreError::FilesystemError(text)
}

/// An error of the file system and what it is about.
pub fn a_to_fs_err(context: &str, text: &str) -> (error: StoreError)
    ensures
        is_fs_error(error, context@ + ": "@ + text@),
{
    let mut whole = concat2(context, ": ");
    whole.append(text);
    StoreError::FilesystemError(whole)
}

/// Whether `error` is an error of the file system with that text.
pub open spec fn is_fs_error(error: StoreError, text: Seq<char>) -> bool {
    match error {
        StoreError::FilesystemError(t) => t@ == text,
        _ => false,
    }
}

/// A bucket: a directory, and the files in it that this process wrote.
pub struct Directory {
    root: String,
    p: String,
    ttl: u64,
    owned_files: DashSet<String>,
}

/// What a [`Directory`] is.
pub ghost struct DirectoryView {
    pub root: Seq<char>,
    pub path: Seq<char>,
    pub ttl: u64,
    pub owned: Set<Seq<char>>,
}

impl View for Directory {
    type V = DirectoryView;

    closed spec fn view(&self) -> DirectoryView {
        DirectoryView {
            root: self.root@,
            path: self.p@,
            ttl: self.ttl,
            owned: members(self.owned_files),
        }
    }
}

/// A file found in a directory.
pub struct FoundFile {
    pub path: String,
    pub name: String,
    pub is_file: bool,
    /// The path with links resolved, or the path itself where that fails.
    pub canonical: String,
}

/// A file found in a directory, and when it was last modified: in nanoseconds after a fixed time, or
/// before it where negative.
pub struct AgedFile {
    pub path: String,
    pub is_file: bool,
    /// Unknown where it could not be told.
    pub modified: Option<i128>,
}

/// Whether a file was not modified since `deadline`.
pub open spec fn is_expired(file: AgedFile, deadline: int) -> bool {
    file.is_file && file.modified is Some && file.modified->Some_0 < deadline
}

/// The paths of the expired files, in order.
pub open spec fn expired_paths(files: Seq<AgedFile>, deadline: int) -> Seq<Seq<char>>
    decreases files.len(),
{
    if files.len() == 0 {
        Seq::empty()
    } else {
        let rest = expired_paths(files.drop_last(), deadline);
        if is_expired(files.last(), deadline) {
            rest.push(files.last().path@)
        } else {
            rest
        }
    }
}

/// The key that a found file stands for: none for directories, for files that are still being
/// written and for what is not below the root.
pub open spec fn file_key(root: Seq<char>, file: FoundFile) -> Option<Seq<char>> {
    if file.is_file && !TEMP_FILE_PREFIX@.is_prefix_of(file.name@) {
        match part_below(root, file.canonical@) {
            Some(relative) => Some(unsafe_text(relative)),
            None => None,
        }
    } else {
        None
    }
}

/// The key that a found file stands for.
pub fn key_of_file(root: &str, file: &FoundFile) -> (key: Option<Key>)
    ensures
        match key {
            Some(k) => file_key(root@, *file) == Some(k@),
            None => file_key(root@, *file) is None,
        },
{
    if !file.is_file || starts_with(file.name.as_str(), TEMP_FILE_PREFIX) {
        return None;
    }
    match relative_to(root, file.canonical.as_str()) {
        Some(relative) => Some(Key::from_url_safe(relative.as_str())),
        None => None,
    }
}

/// A directory entry: a file and, where it stands for a key, what reading it yielded; or why the
/// entry could not be read.
pub type ListedFile = Result<(FoundFile, Result<Arc<Vec<u8>>, String>), String>;

/// What the entries of the directory `path` below `root` hold, or the text of the first error.
pub open spec fn collected(items: Seq<ListedFile>, root: Seq<char>, path: Seq<char>) -> Result<
    Map<Seq<char>, Arc<Vec<u8>>>,
    Seq<char>,
>
    decreases items.len(),
{
    if items.len() == 0 {
        Ok(Map::empty())
    } else {
        match collected(items.drop_last(), root, path) {
            Err(text) => Err(text),
            Ok(map) => match items.last() {
                Err(text) => Err(text@),
                Ok(listed) => match file_key(root, listed.0) {
                    None => Ok(map),
                    Some(key) => match listed.1 {
                        Err(text) => Err(path + ": "@ + text@),
                        Ok(data) => Ok(map.insert(key, data)),
                    },
                },
            },
        }
    }
}

proof fn lemma_collected_error(
    items: Seq<ListedFile>,
    root: Seq<char>,
    path: Seq<char>,
    n: int,
)
    requires
        0 <= n <= items.len(),
        collected(items.take(n), root, path) is Err,
    ensures
        collected(items, root, path) == collected(items.take(n), root, path),
    decreases items.len() - n,
{
    if n < items.len() {
        assert(items.take(n + 1).drop_last() =~= items.take(n));
        lemma_collected_error(items, root, path, n + 1);
    } else {
        assert(items.take(n) =~= items);
    }
}

/// How a file changed.
#[derive(Debug, Clone, Copy, PartialEq, Eq, Structural)]
pub enum FileChange {
    Created,
    ContentChanged,
    RenamedTo,
    Removed,
    /// Anything else, such as a new modification time.
    Other,
}

/// A path of which a change was reported.
pub struct WatchedPath {
    pub path: String,
    /// The last component, if there is one.
    pub name: Option<String>,
    /// The path with links resolved, or the path itself where that fails.
    pub canonical: String,
}

/// What a watcher does about a changed path.
pub enum WatchAction {
    Ignore,
    /// Read the file and tell of its value.
    Read(Key),
    /// Tell that the key is gone.
    Deleted(Key),
}

/// Whether a changed path stands for a key: the directory itself, files that are still being written
/// and what is not below the root do not.
pub open spec fn watched_key(root: Seq<char>, dir: Seq<char>, changed: WatchedPath) -> Option<
    Seq<char>,
> {
    if plain(changed.path@) == plain(dir) {
        None
    } else if changed.name is Some && TEMP_FILE_PREFIX@.is_prefix_of(changed.name->Some_0@) {
        None
    } else {
        match part_below(root, changed.canonical@) {
            Some(relative) => Some(unsafe_text(relative)),
            None => None,
        }
    }
}

impl Directory {
    /// The directory `p` below `root`. Files are kept for at least the time between two rounds of
    /// keeping them alive.
    pub fn new(root: String, p: String, ttl: u64) -> (directory: Self)
        ensures
            directory@ == (DirectoryView {
                root: root@,
                path: p@,
                ttl: greater(ttl, MIN_KEEP_ALIVE),
                owned: Set::<Seq<char>>::empty(),
            }),
    {
        let ttl: u64 = if ttl < MIN_KEEP_ALIVE {
            MIN_KEEP_ALIVE
        } else {
            ttl
        };
        let directory = Directory { root, p, ttl, owned_files: new_members() };
        assert(directory@.owned =~= Set::empty());
        directory
    }

    /// How long, in nanoseconds, files are kept that nobody keeps alive.
    pub fn ttl(&self) -> (ttl: u64)
        ensures
            ttl == self@.ttl,
    {
        self.ttl
    }

    /// The path of the directory.
    pub fn to_string(&self) -> (path: String)
        ensures
            path@ == self@.path,
    {
        self.p.clone()
    }

    /// The path of the root.
    pub fn root(&self) -> (root: &str)
        ensures
            root@ == self@.root,
    {
        self.root.as_str()
    }

    /// The files to touch, so that they do not expire: those that this process wrote.
    pub fn keep_alive(&self) -> (paths: Vec<String>)
        ensures
            forall|path: Seq<char>| #[trigger]
                self@.owned.contains(path) <==> exists|i: int|
                    0 <= i < paths@.len() && (#[trigger] paths@[i])@ == path,
            forall|i: int, j: int|
                0 <= i < j < paths@.len() ==> (#[trigger] paths@[i])@ != (#[trigger] paths@[j])@,
            views(paths@).to_set() == self@.owned,
    {
        let paths = list_members(&self.owned_files);
        proof {
            assert forall|path: Seq<char>| #[trigger] self@.owned.contains(path) == views(
                paths@,
            ).to_set().contains(path) by {
                lemma_views_hold(paths@, path);
            }
            assert(views(paths@).to_set() =~= self@.owned);
        }
        paths
    }

    /// The files to delete: those, whoever wrote them, that were not modified for too long.
    pub fn delete_expired_files(&self, files: &Vec<AgedFile>, now: i128) -> (paths: Vec<String>)
        ensures
            views(paths@) == expired_paths(files@, now - self@.ttl),
    {
        let ttl: i128 = self.ttl as i128;
        let mut paths: Vec<String> = Vec::new();
        let mut i: usize = 0;
        assert(files@.take(0) =~= Seq::empty());
        assert(views(paths@) =~= Seq::empty());
        while i < files.len()
            invariant
                i <= files@.len(),
                ttl == self@.ttl,
                views(paths@) == expired_paths(files@.take(i as int), now - self@.ttl),
            decreases files@.len() - i,
        {
            assert(files@.take(i + 1).drop_last() =~= files@.take(i as int));
            let expired = files[i].is_file && match files[i].modified {
                Some(modified) => match modified.checked_add(ttl) {
                    Some(end) => end < now,
                    None => false,
                },
                None => false,
            };
            if expired {
                let path = files[i].path.clone();
                assert(views(paths@.push(path)) =~= views(paths@).push(path@));
                paths.push(path);
            }
            i = i + 1;
        }
        assert(files@.take(i as int) =~= files@);
        paths
    }

    /// The files to delete at the end: those that this process wrote. They count as deleted.
    pub fn delete_owned_files(&mut self) -> (paths: Vec<String>)
        ensures
            final(self)@ == (DirectoryView { owned: Set::<Seq<char>>::empty(), ..old(self)@ }),
            forall|path: Seq<char>| #[trigger]
                old(self)@.owned.contains(path) <==> exists|i: int|
                    0 <= i < paths@.len() && (#[trigger] paths@[i])@ == path,
            views(paths@).to_set() == old(self)@.owned,
    {
        let paths = list_members(&self.owned_files);
        clear_members(&mut self.owned_files);
        assert(self@.owned =~= Set::empty());
        proof {
            assert forall|path: Seq<char>| #[trigger] old(self)@.owned.contains(path) == views(
                paths@,
            ).to_set().contains(path) by {
                lemma_views_hold(paths@, path);
            }
            assert(views(paths@).to_set() =~= old(self)@.owned);
        }
        paths
    }

    /// The outcome of deleting files, given the errors that came of it.
    pub fn deletion_outcome(errors: &Vec<String>) -> (outcome: Result<(), String>)
        ensures
            outcome is Ok == (errors@.len() == 0),
            outcome is Err ==> outcome->Err_0@ == joined(views(errors@), ", "@),
    {
        if errors.len() > 0 {
            Err(join_all(errors, ", "))
        } else {
            Ok(())
        }
    }

    /// Whether `path` is a file to write a value to before it is given its name.
    pub open spec fn is_temp_path(&self, path: Seq<char>, nanos: u128, random: u64) -> bool {
        path == path_below(
            self@.path,
            TEMP_FILE_PREFIX@ + padded_hex(nanos as nat, 32) + "-"@ + padded_hex(random as nat, 16),
        )
    }

    /// The file to write a value to before it is given its name, told apart by the time and a number.
    pub fn temp_path_for(&self, nanos: u128, random: u64) -> (path: String)
        ensures
            self.is_temp_path(path@, nanos, random),
    {
        let mut name = concat2(TEMP_FILE_PREFIX, to_padded_hex(nanos, 32).as_str());
        name.append("-");
        name.append(to_padded_hex(random as u128, 16).as_str());
        join_path(self.p.as_str(), name.as_str())
    }

    /// The file to write a value to before it is given its name, told apart by the time and a random
    /// number.
    pub fn temp_path(&self, nanos: u128) -> (path: String)
        ensures
            exists|random: u64| self.is_temp_path(path@, nanos, random),
    {
        let random: u64 = random_u64();
        self.temp_path_for(nanos, random)
    }

    /// The file of a key.
    pub fn file_path(&self, key: &Key) -> (path: String)
        ensures
            path@ == path_below(self@.path, safe_text(key@)),
    {
        join_path(self.p.as_str(), key.url_safe().as_ref())
    }

    /// The outcome of writing a value: it was written to a temporary file, and that was renamed.
    /// Revisions do not count. Once written, the file is one of this process.
    pub fn insert(
        &mut self,
        key: &Key,
        temp_path: &str,
        written: Result<(), String>,
        renamed: Result<(), String>,
    ) -> (outcome: Result<StoreOutcome, StoreError>)
        ensures
            ({
                let full = path_below(old(self)@.path, safe_text(key@));
                match (written, renamed) {
                    (Err(text), _) => {
                        &&& outcome is Err
                        &&& is_fs_error(
                            outcome->Err_0,
                            "writing temp "@ + temp_path@ + ": "@ + text@,
                        )
                        &&& final(self)@ == old(self)@
                    },
                    (Ok(_), Err(text)) => {
                        &&& outcome is Err
                        &&& is_fs_error(
                            outcome->Err_0,
                            "renaming "@ + temp_path@ + " -> "@ + full + ": "@ + text@,
                        )
                        &&& final(self)@ == old(self)@
                    },
                    (Ok(_), Ok(_)) => {
                        &&& outcome == Ok::<StoreOutcome, StoreError>(StoreOutcome::Created(0))
                        &&& final(self)@ == (DirectoryView {
                            owned: old(self)@.owned.insert(full),
                            ..old(self)@
                        })
                    },
                }
            }),
    {
        let full_path = self.file_path(key);
        if let Err(text) = written {
            let context = concat2("writing temp ", temp_path);
            return Err(a_to_fs_err(context.as_str(), text.as_str()));
        }
        if let Err(text) = renamed {
            let mut context = concat2("renaming ", temp_path);
            context.append(" -> ");
            context.append(full_path.as_str());
            return Err(a_to_fs_err(context.as_str(), text.as_str()));
        }
        add_member(&mut self.owned_files, full_path);
        Ok(StoreOutcome::Created(0))
    }

    /// The value of a key. `read` is what reading its file yielded, where there is one.
    pub fn get(&self, key: &Key, read: Option<Result<Arc<Vec<u8>>, String>>) -> (value: Result<
        Option<Arc<Vec<u8>>>,
        StoreError,
    >)
        ensures
            match read {
                None => value == Ok::<Option<Arc<Vec<u8>>>, StoreError>(None),
                Some(Ok(data)) => value == Ok::<Option<Arc<Vec<u8>>>, StoreError>(Some(data)),
                Some(Err(text)) => value is Err && is_fs_error(
                    value->Err_0,
                    path_below(self@.path, safe_text(key@)) + ": "@ + text@,
                ),
            },
    {
        match read {
            None => Ok(None),
            Some(Ok(data)) => Ok(Some(data)),
            Some(Err(text)) => Err(a_to_fs_err(self.file_path(key).as_str(), text.as_str())),
        }
    }

    /// Gives up the file of a key before it is removed. Without a file, there is no such key.
    pub fn delete(&mut self, key: &Key, exists: bool) -> (path: Result<String, StoreError>)
        ensures
            ({
                let full = path_below(old(self)@.path, safe_text(key@));
                if exists {
                    &&& path is Ok
                    &&& path->Ok_0@ == full
                    &&& final(self)@ == (DirectoryView {
                        owned: old(self)@.owned.remove(full),
                        ..old(self)@
                    })
                } else {
                    &&& path is Err
                    &&& path->Err_0 is MissingKey
                    &&& path->Err_0->MissingKey_0@ == full
                    &&& final(self)@ == old(self)@
                }
            }),
    {
        let full_path = self.file_path(key);
        if !exists {
            return Err(StoreError::MissingKey(full_path));
        }
        remove_member(&mut self.owned_files, full_path.as_str());
        Ok(full_path)
    }

    /// The outcome of removing the file of a key.
    pub fn deleted(path: &str, removed: Result<(), String>) -> (outcome: Result<(), StoreError>)
        ensures
            match removed {
                Ok(_) => outcome is Ok,
                Err(text) => outcome is Err && is_fs_error(
                    outcome->Err_0,
                    path@ + ": "@ + text@,
                ),
            },
    {
        match removed {
            Ok(()) => Ok(()),
            Err(text) => Err(a_to_fs_err(path, text.as_str())),
        }
    }

    /// What to do about a changed path: files that came or changed are read, and files that went are
    /// told of.
    pub fn watch(&self, changed: &WatchedPath, change: FileChange) -> (action: WatchAction)
        ensures
            match watched_key(self@.root, self@.path, *changed) {
                None => action is Ignore,
                Some(key) => match change {
                    FileChange::Created | FileChange::ContentChanged | FileChange::RenamedTo =>
                        action is Read && action->Read_0@ == key,
                    FileChange::Removed => action is Deleted && action->Deleted_0@ == key,
                    FileChange::Other => action is Ignore,
                },
            },
    {
        if same_text(plain_path(changed.path.as_str()).as_str(), plain_path(self.p.as_str()).as_str()) {
            return WatchAction::Ignore;
        }
        if let Some(name) = &changed.name {
            if starts_with(name.as_str(), TEMP_FILE_PREFIX) {
                return WatchAction::Ignore;
            }
        }
        let key = match relative_to(self.root.as_str(), changed.canonical.as_str()) {
            Some(relative) => Key::from_url_safe(relative.as_str()),
            None => {
                return WatchAction::Ignore;
            },
        };
        match change {
            FileChange::Created | FileChange::ContentChanged | FileChange::RenamedTo => {
                WatchAction::Read(key)
            },
            FileChange::Removed => WatchAction::Deleted(key),
            FileChange::Other => WatchAction::Ignore,
        }
    }

    /// What a watcher is told, given what reading the file yielded. A file that cannot be read is
    /// passed over.
    pub fn watch_event(action: WatchAction, read: Result<Arc<Vec<u8>>, String>) -> (event: Option<
        WatchEvent,
    >)
        ensures
            match (action, read) {
                (WatchAction::Ignore, _) => event is None,
                (WatchAction::Read(_), Err(_)) => event is None,
                (WatchAction::Read(key), Ok(data)) => match event {
                    Some(WatchEvent::Put(kv)) => kv.spec_key() == key@ && kv.spec_value() == data,
                    _ => false,
                },
                (WatchAction::Deleted(key), _) => match event {
                    Some(WatchEvent::Delete(k)) => k@ == key@,
                    _ => false,
                },
            },
    {
        match action {
            WatchAction::Ignore => None,
            WatchAction::Read(key) => match read {
                Ok(data) => Some(WatchEvent::Put(KeyValue::new(key, data))),
                Err(_) => None,
            },
            WatchAction::Deleted(key) => Some(WatchEvent::Delete(key)),
        }
    }

    /// The values of the bucket, by their keys, from the entries of its directory. The first error
    /// is the outcome.
    pub fn entries(&self, items: &Vec<ListedFile>) -> (values: Result<
        Dict<String, Arc<Vec<u8>>>,
        StoreError,
    >)
        ensures
            match collected(items@, self@.root, self@.path) {
                Ok(map) => values is Ok && values->Ok_0@ == map,
                Err(text) => values is Err && is_fs_error(values->Err_0, text),
            },
    {
        let mut out: Dict<String, Arc<Vec<u8>>> = Dict::new();
        let ghost path = self@.path;
        let ghost root = self@.root;
        let mut i: usize = 0;
        assert(items@.take(0) =~= Seq::empty());
        while i < items.len()
            invariant
                i <= items@.len(),
                path == self@.path,
                root == self@.root,
                collected(items@.take(i as int), root, path) == Ok::<
                    Map<Seq<char>, Arc<Vec<u8>>>,
                    Seq<char>,
                >(out@),
            decreases items@.len() - i,
        {
            proof {
                assert(items@.take(i + 1).drop_last() =~= items@.take(i as int));
                assert(items@.take(i + 1).last() == items@[i as int]);
                if collected(items@.take(i + 1), root, path) is Err {
                    lemma_collected_error(items@, root, path, i + 1);
                }
            }
            match &items[i] {
                Err(text) => {
                    return Err(to_fs_err(text.clone()));
                },
                Ok(listed) => {
                    if let Some(key) = key_of_file(self.root.as_str(), &listed.0) {
                        match &listed.1 {
                            Err(text) => {
                                return Err(a_to_fs_err(self.p.as_str(), text.as_str()));
                            },
                            Ok(data) => {
                                out.insert(key.to_string(), data.clone());
                            },
                        }
                    }
                },
            }
            i = i + 1;
        }
        assert(items@.take(i as int) =~= items@);
        Ok(out)
    }
}

/// A value that was written can be found: the file of a key stands for the parts of the bucket, each
/// with a slash behind it, and the key, where nothing in the bucket reads as an escape.
pub proof fn law_written_file_is_listed(
    root: Seq<char>,
    bucket: Seq<char>,
    key: Seq<char>,
    file: FoundFile,
)
    requires
        root.len() > 0,
        key.len() > 0,
        has_no_escape(vstd::utf8::encode_utf8(joined(inner_parts(bucket), "/"@))),
        file.is_file,
        file.name@ == safe_text(key),
        file.canonical@ == path_below(
            root,
            joined(inner_parts(bucket).push(safe_text(key)), "/"@),
        ),
    ensures
        file_key(root, file) == Some(joined(inner_parts(bucket).push(key), "/"@)),
{
    let parts = inner_parts(bucket);
    let name = safe_text(key);
    law_keys_are_not_temporary(key);
    law_escaped_name_has_no_slash(key);
    lemma_safe_text_is_a_name(key);
    lemma_inner_parts_are_names(bucket);
    assert forall|i: int| 0 <= i < parts.push(name).len() implies is_part_name(
        #[trigger] parts.push(name)[i],
    ) by {
        if i < parts.len() {
            assert(parts.push(name)[i] == parts[i]);
        }
    }
    law_plain_path_leads_from_root(root, parts.push(name));
    assert(parts.push(name).drop_last() =~= parts);
    assert(parts.push(key).drop_last() =~= parts);
    if parts.len() == 0 {
        law_escaped_name_reads_back(key);
    } else {
        law_path_reads_back(joined(parts, "/"@), key);
    }
}

/// No key is written to a file whose name marks it as temporary.
pub proof fn law_keys_are_not_temporary(key: Seq<char>)
    ensures
        !TEMP_FILE_PREFIX@.is_prefix_of(safe_text(key)),
{
    reveal_strlit(".dyn-tmp-");
    if TEMP_FILE_PREFIX@.is_prefix_of(safe_text(key)) {
        assert(safe_text(key).subrange(0, 9)[0] == '.');
        assert(safe_text(key)[0] == '.');
        crate::storage::kv::encoding::lemma_encoded_is_plain(vstd::utf8::encode_utf8(key));
    }
}

/// What stands at a path.
#[derive(Debug, Clone, Copy, PartialEq, Eq, Structural)]
pub enum PathState {
    Missing,
    Directory,
    Other,
}

/// Buckets as directories below a root.
pub struct FileStore {
    root: String,
    connection_id: u64,
    active_dirs: DashMap<String, u64>,
    names: Vec<String>,
    dirs: Vec<Directory>,
}

/// The buckets of a store, by the path of their directory in its plainest form.
pub type Buckets = Map<Seq<char>, DirectoryView>;

impl View for FileStore {
    type V = Buckets;

    closed spec fn view(&self) -> Buckets {
        Map::new(
            |path: Seq<char>| numbered(self.active_dirs).contains_key(path),
            |path: Seq<char>| self.dirs@[numbered(self.active_dirs)[path] as int]@,
        )
    }
}

/// Whether `dirs` are the directories of the buckets, each once, and `names` their paths.
pub open spec fn lists(names: Seq<Seq<char>>, dirs: Seq<Directory>, buckets: Buckets) -> bool {
    &&& names.len() == dirs.len()
    &&& names.no_duplicates()
    &&& forall|i: int|
        0 <= i < names.len() ==> buckets.contains_key(#[trigger] names[i]) && buckets[names[i]]
            == dirs[i]@
    &&& forall|path: Seq<char>| #[trigger] buckets.contains_key(path) ==> names.contains(path)
}

/// Whether `ttl` is the least of the times to keep files, the default among them.
pub open spec fn is_shortest_ttl(buckets: Buckets, ttl: u64) -> bool {
    &&& ttl <= DEFAULT_TTL
    &&& forall|path: Seq<char>| #[trigger] buckets.contains_key(path) ==> ttl <= buckets[path].ttl
    &&& ttl == DEFAULT_TTL || exists|path: Seq<char>| #[trigger]
        buckets.contains_key(path) && buckets[path].ttl == ttl
}

/// Whether this process wrote the file at `path`, in one of the buckets.
pub open spec fn is_owned(buckets: Buckets, path: Seq<char>) -> bool {
    exists|name: Seq<char>| #[trigger]
        buckets.contains_key(name) && buckets[name].owned.contains(path)
}

impl FileStore {
    /// Every bucket has a directory of its own, and there is no other.
    pub closed spec fn wf(&self) -> bool {
        &&& self.names@.len() == self.dirs@.len()
        &&& forall|i: int|
            0 <= i < self.names@.len() ==> numbered(self.active_dirs).contains_key(
                (#[trigger] self.names@[i])@,
            ) && numbered(self.active_dirs)[self.names@[i]@] == i
        &&& forall|path: Seq<char>| #[trigger]
            numbered(self.active_dirs).contains_key(path) ==> {
                &&& numbered(self.active_dirs)[path] < self.dirs@.len()
                &&& self.names@[numbered(self.active_dirs)[path] as int]@ == path
            }
    }

    /// The path of the root.
    pub closed spec fn spec_root(&self) -> Seq<char> {
        self.root@
    }

    /// The identifier of the store.
    pub closed spec fn spec_connection_id(&self) -> u64 {
        self.connection_id
    }

    proof fn lemma_lists(&self)
        requires
            self.wf(),
        ensures
            lists(views(self.names@), self.dirs@, self@),
    {
        let names = views(self.names@);
        assert forall|i: int, j: int|
            0 <= i < names.len() && 0 <= j < names.len() && i != j implies names[i] != names[j] by {
            assert(numbered(self.active_dirs)[self.names@[i]@] == i);
            assert(numbered(self.active_dirs)[self.names@[j]@] == j);
        }
        assert forall|i: int| 0 <= i < names.len() implies self@.contains_key(#[trigger] names[i])
            && self@[names[i]] == self.dirs@[i]@ by {
            assert(numbered(self.active_dirs).contains_key(self.names@[i]@));
        }
        assert forall|path: Seq<char>| #[trigger] self@.contains_key(path) implies names.contains(
            path,
        ) by {
            assert(numbered(self.active_dirs).contains_key(path));
            assert(names[numbered(self.active_dirs)[path] as int] == path);
        }
    }

    /// A store without buckets, under a random identifier.
    pub fn new(root_dir: String) -> (store: Self)
        ensures
            store.wf(),
            store@ == Map::<Seq<char>, DirectoryView>::empty(),
            store.spec_root() == root_dir@,
    {
        let store = FileStore {
            root: root_dir,
            connection_id: random_u64(),
            active_dirs: new_numbered(),
            names: Vec::new(),
            dirs: Vec::new(),
        };
        assert(store@ =~= Map::empty());
        store
    }

    /// The path of a bucket.
    pub fn bucket_path(&self, bucket_name: &str) -> (path: String)
        ensures
            path@ == path_below(self.spec_root(), bucket_name@),
    {
        join_path(self.root.as_str(), bucket_name)
    }

    /// The identifier of the store.
    pub fn connection_id(&self) -> (id: u64)
        ensures
            id == self.spec_connection_id(),
    {
        self.connection_id
    }

    /// The directories of the buckets that are in use.
    pub fn directories(&self) -> (dirs: &Vec<Directory>)
        requires
            self.wf(),
        ensures
            exists|names: Seq<Seq<char>>| lists(names, dirs@, self@),
    {
        proof {
            self.lemma_lists();
        }
        &self.dirs
    }

    /// The least of the times to keep files, which is no more than the default.
    pub fn shortest_ttl(&self) -> (ttl: u64)
        requires
            self.wf(),
        ensures
            is_shortest_ttl(self@, ttl),
    {
        let mut ttl: u64 = DEFAULT_TTL;
        let mut i: usize = 0;
        let ghost names = views(self.names@);
        proof {
            self.lemma_lists();
        }
        while i < self.dirs.len()
            invariant
                i <= self.dirs@.len(),
                lists(names, self.dirs@, self@),
                ttl <= DEFAULT_TTL,
                forall|j: int| 0 <= j < i ==> ttl <= (#[trigger] self.dirs@[j])@.ttl,
                ttl == DEFAULT_TTL || exists|j: int|
                    0 <= j < i && (#[trigger] self.dirs@[j])@.ttl == ttl,
            decreases self.dirs@.len() - i,
        {
            let other: u64 = self.dirs[i].ttl();
            assert(self.dirs@[i as int]@.ttl == other);
            if other < ttl {
                ttl = other;
            }
            i = i + 1;
        }
        proof {
            assert forall|path: Seq<char>| #[trigger] self@.contains_key(path) implies ttl
                <= self@[path].ttl by {
                let j = choose|j: int| 0 <= j < names.len() && names[j] == path;
                assert(self@[names[j]] == self.dirs@[j]@);
            }
            if ttl != DEFAULT_TTL {
                let j = choose|j: int| 0 <= j < i && (#[trigger] self.dirs@[j])@.ttl == ttl;
                assert(self@.contains_key(names[j]) && self@[names[j]].ttl == ttl);
            }
        }
        ttl
    }

    /// How long, in nanoseconds, to wait between two rounds of keeping files alive: a third of the
    /// least time that files are kept, and no less than the minimum.
    pub fn expiry_interval(&self) -> (interval: u64)
        requires
            self.wf(),
        ensures
            exists|ttl: u64| #[trigger]
                is_shortest_ttl(self@, ttl) && interval == greater(ttl / 3, MIN_KEEP_ALIVE),
    {
        let third: u64 = self.shortest_ttl() / 3;
        if third >= MIN_KEEP_ALIVE {
            third
        } else {
            MIN_KEEP_ALIVE
        }
    }

    /// The files to touch, so that they do not expire: those that this process wrote, in any bucket.
    pub fn keep_alive(&self) -> (paths: Vec<String>)
        requires
            self.wf(),
        ensures
            forall|path: Seq<char>| #[trigger]
                is_owned(self@, path) <==> views(paths@).contains(path),
            views(paths@).to_set() == Set::new(|path: Seq<char>| is_owned(self@, path)),
    {
        let mut paths: Vec<String> = Vec::new();
        let mut i: usize = 0;
        let ghost names = views(self.names@);
        proof {
            self.lemma_lists();
        }
        while i < self.dirs.len()
            invariant
                i <= self.dirs@.len(),
                lists(names, self.dirs@, self@),
                forall|path: Seq<char>| #[trigger]
                    views(paths@).contains(path) <==> owned_among(self.dirs@, i as int, path),
            decreases self.dirs@.len() - i,
        {
            let mut more = self.dirs[i].keep_alive();
            let ghost before = paths@;
            let ghost added = more@;
            paths.append(&mut more);
            proof {
                assert forall|path: Seq<char>| #[trigger]
                    views(paths@).contains(path) <==> owned_among(
                        self.dirs@,
                        i + 1,
                        path,
                    ) by {
                    assert(paths@ == before + added);
                    lemma_views_join(before, added, path);
                    lemma_views_hold(added, path);
                    assert(self.dirs@[i as int]@.owned.contains(path) <==> views(added).contains(
                        path,
                    ));
                    assert(views(before).contains(path) <==> owned_among(
                        self.dirs@,
                        i as int,
                        path,
                    ));
                }
            }
            i = i + 1;
        }
        proof {
            assert forall|path: Seq<char>| #[trigger] is_owned(self@, path) <==> views(
                paths@,
            ).contains(path) by {
                if is_owned(self@, path) {
                    let name = choose|name: Seq<char>| #[trigger]
                        self@.contains_key(name) && self@[name].owned.contains(path);
                    let j = choose|j: int| 0 <= j < names.len() && names[j] == name;
                    assert(self@[names[j]] == self.dirs@[j]@);
                    assert(self.dirs@[j]@.owned.contains(path));
                }
                if owned_among(self.dirs@, i as int, path) {
                    let j = choose|j: int|
                        0 <= j < i && (#[trigger] self.dirs@[j])@.owned.contains(path);
                    assert(self@.contains_key(names[j]) && self@[names[j]].owned.contains(path));
                }
            }
            assert(views(paths@).to_set() =~= Set::new(|path: Seq<char>| is_owned(self@, path)));
        }
        paths
    }

    /// The directory of a bucket that is in use.
    pub fn directory(&self, path: &str) -> (directory: Option<&Directory>)
        requires
            self.wf(),
        ensures
            match directory {
                Some(found) => self@.contains_key(plain(path@)) && found@ == self@[plain(path@)],
                None => !self@.contains_key(plain(path@)),
            },
    {
        let count: usize = self.dirs.len();
        match get_number(&self.active_dirs, plain_path(path).as_str()) {
            Some(number) => {
                assert(number < count);
                Some(&self.dirs[number as usize])
            },
            None => None,
        }
    }

    /// The directory of a bucket that is in use, for changes.
    pub fn directory_mut(&mut self, path: &str) -> (directory: Option<&mut Directory>)
        requires
            old(self).wf(),
        ensures
            final(self).wf(),
            final(self).spec_root() == old(self).spec_root(),
            final(self).spec_connection_id() == old(self).spec_connection_id(),
            match directory {
                Some(found) => old(self)@.contains_key(plain(path@)) && (*found)@ == old(
                    self,
                )@[plain(path@)] && final(self)@ == old(self)@.insert(
                    plain(path@),
                    (*final(found))@,
                ),
                None => !old(self)@.contains_key(plain(path@)) && final(self)@ == old(self)@,
            },
    {
        let count: usize = self.dirs.len();
        match get_number(&self.active_dirs, plain_path(path).as_str()) {
            Some(number) => {
                assert(number < count);
                let ghost before = *self;
                let found = &mut self.dirs[number as usize];
                proof {
                    lemma_directory_changed(before, plain(path@), number as int, *final(found));
                }
                Some(found)
            },
            None => None,
        }
    }

    fn register(&mut self, path: String, directory: Directory)
        requires
            old(self).wf(),
            !old(self)@.contains_key(path@),
        ensures
            final(self).wf(),
            final(self)@ == old(self)@.insert(path@, directory@),
            final(self).spec_root() == old(self).spec_root(),
            final(self).spec_connection_id() == old(self).spec_connection_id(),
    {
        let number: u64 = self.dirs.len() as u64;
        self.dirs.push(directory);
        self.names.push(path.clone());
        set_number(&mut self.active_dirs, path, number);
        assert(self@ =~= old(self)@.insert(path@, directory@));
    }

    /// Whether the directory of a bucket has to be made, where the bucket is not in use: it has where
    /// nothing stands there. Anything but a directory is an error.
    pub fn ensure_dir(state: PathState) -> (make: Result<bool, StoreError>)
        ensures
            match state {
                PathState::Missing => make == Ok::<bool, StoreError>(true),
                PathState::Directory => make == Ok::<bool, StoreError>(false),
                PathState::Other => make is Err && is_fs_error(
                    make->Err_0,
                    "Bucket name is not a directory"@,
                ),
            },
    {
        match state {
            PathState::Missing => Ok(true),
            PathState::Directory => Ok(false),
            PathState::Other => Err(
                StoreError::FilesystemError("Bucket name is not a directory".to_owned()),
            ),
        }
    }

    /// The path of a bucket, which is put to use. `state` is what stands there, `made` the outcome of
    /// making it where nothing does, and `canonical_root` the root with links resolved.
    pub fn get_or_create_bucket(
        &mut self,
        bucket_name: &str,
        ttl: Option<u64>,
        state: PathState,
        made: Result<(), String>,
        canonical_root: String,
    ) -> (bucket: Result<String, StoreError>)
        requires
            old(self).wf(),
        ensures
            final(self).wf(),
            final(self).spec_root() == old(self).spec_root(),
            final(self).spec_connection_id() == old(self).spec_connection_id(),
            ({
                let path = path_below(old(self).spec_root(), bucket_name@);
                if old(self)@.contains_key(plain(path)) {
                    bucket is Ok && bucket->Ok_0@ == path && final(self)@ == old(self)@
                } else if state == PathState::Other {
                    bucket is Err && is_fs_error(
                        bucket->Err_0,
                        "Bucket name is not a directory"@,
                    ) && final(self)@ == old(self)@
                } else if state == PathState::Missing && made is Err {
                    bucket is Err && is_fs_error(bucket->Err_0, made->Err_0@) && final(self)@
                        == old(self)@
                } else {
                    bucket is Ok && bucket->Ok_0@ == path && final(self)@ == old(self)@.insert(
                        plain(path),
                        DirectoryView {
                            root: canonical_root@,
                            path,
                            ttl: greater(
                                match ttl {
                                    Some(given) => given,
                                    None => DEFAULT_TTL,
                                },
                                MIN_KEEP_ALIVE,
                            ),
                            owned: Set::<Seq<char>>::empty(),
                        },
                    )
                }
            }),
    {
        let path = self.bucket_path(bucket_name);
        let name = plain_path(path.as_str());
        if get_number(&self.active_dirs, name.as_str()).is_some() {
            return Ok(path);
        }
        match Self::ensure_dir(state) {
            Err(error) => {
                return Err(error);
            },
            Ok(make) => {
                if make {
                    if let Err(text) = made {
                        return Err(to_fs_err(text));
                    }
                }
            },
        }
        let ttl: u64 = match ttl {
            Some(given) => given,
            None => DEFAULT_TTL,
        };
        let directory = Directory::new(canonical_root, path.clone(), ttl);
        self.register(name, directory);
        Ok(path)
    }

    /// The path of a bucket that is in use or has a directory, which is then put to use.
    pub fn get_bucket(
        &mut self,
        bucket_name: &str,
        state: PathState,
        canonical_root: String,
    ) -> (bucket: Result<Option<String>, StoreError>)
        requires
            old(self).wf(),
        ensures
            final(self).wf(),
            final(self).spec_root() == old(self).spec_root(),
            final(self).spec_connection_id() == old(self).spec_connection_id(),
            ({
                let path = path_below(old(self).spec_root(), bucket_name@);
                if old(self)@.contains_key(plain(path)) {
                    bucket is Ok && bucket->Ok_0 is Some && bucket->Ok_0->Some_0@ == path
                        && final(self)@ == old(self)@
                } else if state == PathState::Missing {
                    bucket == Ok::<Option<String>, StoreError>(None) && final(self)@ == old(self)@
                } else if state == PathState::Other {
                    bucket is Err && is_fs_error(
                        bucket->Err_0,
                        "Bucket name is not a directory"@,
                    ) && final(self)@ == old(self)@
                } else {
                    bucket is Ok && bucket->Ok_0 is Some && bucket->Ok_0->Some_0@ == path
                        && final(self)@ == old(self)@.insert(
                        plain(path),
                        DirectoryView {
                            root: canonical_root@,
                            path,
                            ttl: DEFAULT_TTL,
                            owned: Set::<Seq<char>>::empty(),
                        },
                    )
                }
            }),
    {
        let path = self.bucket_path(bucket_name);
        let name = plain_path(path.as_str());
        if get_number(&self.active_dirs, name.as_str()).is_some() {
            return Ok(Some(path));
        }
        match state {
            PathState::Missing => Ok(None),
            PathState::Other => Err(
                StoreError::FilesystemError("Bucket name is not a directory".to_owned()),
            ),
            PathState::Directory => {
                let directory = Directory::new(canonical_root, path.clone(), DEFAULT_TTL);
                self.register(name, directory);
                Ok(Some(path))
            },
        }
    }

    /// Takes every bucket out of use and hands over their directories, so that the files which this
    /// process wrote can be deleted.
    pub fn shutdown(&mut self) -> (dirs: Vec<Directory>)
        requires
            old(self).wf(),
        ensures
            exists|names: Seq<Seq<char>>| lists(names, dirs@, old(self)@),
            final(self)@ == Map::<Seq<char>, DirectoryView>::empty(),
            final(self).wf(),
            final(self).spec_root() == old(self).spec_root(),
            final(self).spec_connection_id() == old(self).spec_connection_id(),
    {
        proof {
            self.lemma_lists();
        }
        let mut dirs: Vec<Directory> = Vec::new();
        core::mem::swap(&mut dirs, &mut self.dirs);
        self.names = Vec::new();
        self.active_dirs = new_numbered();
        assert(self@ =~= Map::empty());
        dirs
    }
}

/// Whether this process wrote the file at `path`, in one of the first `n` directories.
spec fn owned_among(dirs: Seq<Directory>, n: int, path: Seq<char>) -> bool {
    exists|j: int| 0 <= j < n && (#[trigger] dirs[j])@.owned.contains(path)
}

proof fn lemma_views_join(a: Seq<String>, b: Seq<String>, path: Seq<char>)
    ensures
        views(a + b).contains(path) == (views(a).contains(path) || views(b).contains(path)),
{
    assert(views(a + b) =~= views(a) + views(b));
    if views(a).contains(path) {
        let i = choose|i: int| 0 <= i < a.len() && views(a)[i] == path;
        assert((views(a) + views(b))[i] == path);
    }
    if views(b).contains(path) {
        let i = choose|i: int| 0 <= i < b.len() && views(b)[i] == path;
        assert((views(a) + views(b))[a.len() + i] == path);
    }
}

proof fn lemma_views_hold(a: Seq<String>, path: Seq<char>)
    ensures
        views(a).contains(path) == exists|i: int|
            0 <= i < a.len() && (#[trigger] a[i])@ == path,
{
    if views(a).contains(path) {
        let i = choose|i: int| 0 <= i < a.len() && views(a)[i] == path;
        assert(a[i]@ == path);
    }
    if exists|i: int| 0 <= i < a.len() && (#[trigger] a[i])@ == path {
        let i = choose|i: int| 0 <= i < a.len() && (#[trigger] a[i])@ == path;
        assert(views(a)[i] == path);
    }
}

proof fn lemma_directory_changed(store: FileStore, path: Seq<char>, n: int, changed: Directory)
    requires
        store.wf(),
        store@.contains_key(path),
        n == numbered(store.active_dirs)[path],
    ensures
        forall|f: FileStore| #![trigger f.wf()]
            f.active_dirs == store.active_dirs && f.names == store.names && f.dirs@
                == store.dirs@.update(n, changed) ==> f.wf() && f@ == store@.insert(path, changed@),
{
    assert forall|f: FileStore| #![trigger f.wf()]
        f.active_dirs == store.active_dirs && f.names == store.names && f.dirs@
            == store.dirs@.update(n, changed) implies f.wf() && f@ == store@.insert(path, changed@) by {
        assert(f@ =~= store@.insert(path, changed@));
    }
}

/// Files are kept for as long as was asked for, but for no less than a second, and a new directory
/// has no file of this process.
pub proof fn law_directory_as_made(
    root: String,
    path: String,
    ttl: u64,
    directory: Directory,
    kept: u64,
    shown: String,
    below: &str,
    files: Vec<String>,
)
    requires
        call_ensures(Directory::new, (root, path, ttl), directory),
        call_ensures(Directory::ttl, (&directory,), kept),
        call_ensures(Directory::to_string, (&directory,), shown),
        call_ensures(Directory::root, (&directory,), below),
        call_ensures(Directory::keep_alive, (&directory,), files),
    ensures
        ttl >= 1_000_000_000 ==> kept == ttl,
        ttl < 1_000_000_000 ==> kept == 1_000_000_000,
        shown@ == path@,
        below@ == root@,
        files@.len() == 0,
{
    if files@.len() > 0 {
        assert(files@[0]@ == files@[0]@);
        assert(directory@.owned.contains(files@[0]@));
    }
}

/// Exactly the files that were last modified longer ago than files are kept are deleted, in order;
/// directories never are, nor files of which that is not known.
pub proof fn law_only_old_files_are_deleted(
    directory: &Directory,
    ttl: u64,
    files: &Vec<AgedFile>,
    now: i128,
    paths: Vec<String>,
)
    requires
        call_ensures(Directory::ttl, (directory,), ttl),
        call_ensures(Directory::delete_expired_files, (directory, files, now), paths),
    ensures
        views(paths@) == files@.filter_map(
            |file: AgedFile|
                if file.is_file && file.modified is Some && file.modified->Some_0 + ttl < now {
                    Some(file.path@)
                } else {
                    None
                },
        ),
        forall|i: int|
            0 <= i < files@.len() && (#[trigger] files@[i]).is_file && files@[i].modified is Some
                && now - files@[i].modified->Some_0 > ttl ==> views(paths@).contains(
                files@[i].path@,
            ),
        forall|path: Seq<char>| #[trigger]
            views(paths@).contains(path) ==> exists|i: int|
                0 <= i < files@.len() && (#[trigger] files@[i]).path@ == path && files@[i].is_file
                    && files@[i].modified is Some && now - files@[i].modified->Some_0 > ttl,
{
    lemma_expired_paths(files@, now - ttl, ttl, now);
}

proof fn lemma_expired_paths(files: Seq<AgedFile>, deadline: int, ttl: u64, now: i128)
    requires
        deadline == now - ttl,
    ensures
        expired_paths(files, deadline) == files.filter_map(
            |file: AgedFile|
                if file.is_file && file.modified is Some && file.modified->Some_0 + ttl < now {
                    Some(file.path@)
                } else {
                    None
                },
        ),
        forall|i: int|
            0 <= i < files.len() && (#[trigger] files[i]).is_file && files[i].modified is Some
                && now - files[i].modified->Some_0 > ttl ==> expired_paths(files, deadline).contains(
                files[i].path@,
            ),
        forall|path: Seq<char>| #[trigger]
            expired_paths(files, deadline).contains(path) ==> exists|i: int|
                0 <= i < files.len() && (#[trigger] files[i]).path@ == path && files[i].is_file
                    && files[i].modified is Some && now - files[i].modified->Some_0 > ttl,
    decreases files.len(),
{
    let f = |file: AgedFile|
        if file.is_file && file.modified is Some && file.modified->Some_0 + ttl < now {
            Some(file.path@)
        } else {
            None::<Seq<char>>
        };
    if files.len() > 0 {
        let init = files.drop_last();
        lemma_expired_paths(init, deadline, ttl, now);
        let rest = expired_paths(init, deadline);
        let all = expired_paths(files, deadline);
        assert(all =~= files.filter_map(f));
        assert forall|i: int|
            0 <= i < files.len() && (#[trigger] files[i]).is_file && files[i].modified is Some
                && now - files[i].modified->Some_0 > ttl implies all.contains(files[i].path@) by {
            if i < init.len() {
                assert(init[i] == files[i]);
                let k = choose|k: int| 0 <= k < rest.len() && rest[k] == files[i].path@;
                assert(all[k] == files[i].path@);
            } else {
                assert(all.last() == files[i].path@);
            }
        }
        assert forall|path: Seq<char>| #[trigger] all.contains(path) implies exists|i: int|
            0 <= i < files.len() && (#[trigger] files[i]).path@ == path && files[i].is_file
                && files[i].modified is Some && now - files[i].modified->Some_0 > ttl by {
            let k = choose|k: int| 0 <= k < all.len() && all[k] == path;
            if k < rest.len() {
                assert(rest[k] == path);
                assert(rest.contains(path));
                let i = choose|i: int|
                    0 <= i < init.len() && (#[trigger] init[i]).path@ == path && init[i].is_file
                        && init[i].modified is Some && now - init[i].modified->Some_0 > ttl;
                assert(files[i] == init[i]);
            } else {
                assert(files[files.len() - 1].path@ == path);
            }
        }
    } else {
        assert(expired_paths(files, deadline) =~= files.filter_map(f));
    }
}

proof fn lemma_kept_alive(directory: Directory, paths: Vec<String>, path: Seq<char>)
    requires
        call_ensures(Directory::keep_alive, (&directory,), paths),
    ensures
        directory@.owned.contains(path) == views(paths@).contains(path),
{
    assert(views(paths@).to_set().contains(path) == views(paths@).contains(path));
}

/// A file that was written is kept alive from then on, until it is deleted; a write that failed
/// changes nothing; and neither writing nor deleting concerns another file.
pub proof fn law_written_file_is_kept_alive(
    writing: &mut Directory,
    key: &Key,
    temp: &str,
    written: Result<(), String>,
    renamed: Result<(), String>,
    outcome: Result<StoreOutcome, StoreError>,
    path: String,
    before: Vec<String>,
    after: Vec<String>,
    other: Seq<char>,
)
    requires
        call_ensures(Directory::file_path, (&*old(writing), key), path),
        call_ensures(Directory::keep_alive, (&*old(writing),), before),
        call_ensures(Directory::insert, (writing, key, temp, written, renamed), outcome),
        call_ensures(Directory::keep_alive, (&*final(writing),), after),
    ensures
        outcome is Ok <==> written is Ok && renamed is Ok,
        outcome is Ok ==> outcome->Ok_0 == StoreOutcome::Created(0),
        outcome is Ok ==> views(after@).contains(path@),
        other != path@ || outcome is Err ==> views(after@).contains(other) == views(
            before@,
        ).contains(other),
        written is Err ==> outcome->Err_0 is FilesystemError
            && outcome->Err_0->FilesystemError_0@ == "writing temp "@ + temp@ + ": "@
            + written->Err_0@,
        written is Ok && renamed is Err ==> outcome->Err_0 is FilesystemError
            && outcome->Err_0->FilesystemError_0@ == "renaming "@ + temp@ + " -> "@ + path@
            + ": "@ + renamed->Err_0@,
        final(writing)@.path == old(writing)@.path,
        final(writing)@.root == old(writing)@.root,
        final(writing)@.ttl == old(writing)@.ttl,
{
    lemma_kept_alive(*old(writing), before, other);
    lemma_kept_alive(*final(writing), after, other);
    lemma_kept_alive(*final(writing), after, path@);
}

/// A file that is deleted is the one of its key, and is kept alive no longer; without a file the key
/// is missing, and nothing changes.
pub proof fn law_deleted_file_is_given_up(
    directory: &mut Directory,
    key: &Key,
    there: bool,
    deleted: Result<String, StoreError>,
    path: String,
    before: Vec<String>,
    after: Vec<String>,
    other: Seq<char>,
)
    requires
        call_ensures(Directory::file_path, (&*old(directory), key), path),
        call_ensures(Directory::keep_alive, (&*old(directory),), before),
        call_ensures(Directory::delete, (directory, key, there), deleted),
        call_ensures(Directory::keep_alive, (&*final(directory),), after),
    ensures
        deleted is Ok == there,
        there ==> deleted->Ok_0@ == path@ && !views(after@).contains(path@),
        !there ==> deleted->Err_0 is MissingKey && deleted->Err_0->MissingKey_0@ == path@,
        other != path@ || !there ==> views(after@).contains(other) == views(before@).contains(other),
        final(directory)@.path == old(directory)@.path,
        final(directory)@.root == old(directory)@.root,
        final(directory)@.ttl == old(directory)@.ttl,
{
    lemma_kept_alive(*old(directory), before, other);
    lemma_kept_alive(*final(directory), after, other);
    lemma_kept_alive(*final(directory), after, path@);
}

/// At the end every file of this process is deleted, and none is kept alive any more.
pub proof fn law_every_own_file_is_deleted(
    directory: &mut Directory,
    before: Vec<String>,
    deleted: Vec<String>,
    after: Vec<String>,
    path: Seq<char>,
    errors: &Vec<String>,
    outcome: Result<(), String>,
)
    requires
        call_ensures(Directory::keep_alive, (&*old(directory),), before),
        call_ensures(Directory::delete_owned_files, (directory,), deleted),
        call_ensures(Directory::keep_alive, (&*final(directory),), after),
        call_ensures(Directory::deletion_outcome, (errors,), outcome),
    ensures
        views(deleted@).contains(path) == views(before@).contains(path),
        after@.len() == 0,
        outcome is Ok == (errors@.len() == 0),
        errors@.len() == 1 ==> outcome->Err_0@ == errors@[0]@,
{
    lemma_kept_alive(*old(directory), before, path);
    assert(views(deleted@).to_set().contains(path) == views(deleted@).contains(path));
    if after@.len() > 0 {
        assert(views(after@)[0] == after@[0]@);
        lemma_kept_alive(*final(directory), after, after@[0]@);
    }
}

/// What reading the file of a key yields is its value; without a file there is none.
pub proof fn law_value_is_what_was_read(
    directory: &Directory,
    key: &Key,
    path: String,
    data: Arc<Vec<u8>>,
    text: String,
    value: Result<Option<Arc<Vec<u8>>>, StoreError>,
    none: Result<Option<Arc<Vec<u8>>>, StoreError>,
    failed: Result<Option<Arc<Vec<u8>>>, StoreError>,
    removed: Result<(), String>,
    shown: &str,
    outcome: Result<(), StoreError>,
)
    requires
        call_ensures(Directory::file_path, (directory, key), path),
        call_ensures(
            Directory::get,
            (directory, key, Some(Ok::<Arc<Vec<u8>>, String>(data))),
            value,
        ),
        call_ensures(Directory::get, (directory, key, None::<Result<Arc<Vec<u8>>, String>>), none),
        call_ensures(
            Directory::get,
            (directory, key, Some(Err::<Arc<Vec<u8>>, String>(text))),
            failed,
        ),
        call_ensures(Directory::deleted, (shown, removed), outcome),
    ensures
        value == Ok::<Option<Arc<Vec<u8>>>, StoreError>(Some(data)),
        none == Ok::<Option<Arc<Vec<u8>>>, StoreError>(None),
        failed is Err && failed->Err_0 is FilesystemError && failed->Err_0->FilesystemError_0@
            == path@ + ": "@ + text@,
        outcome is Ok == removed is Ok,
        outcome is Err ==> outcome->Err_0 is FilesystemError
            && outcome->Err_0->FilesystemError_0@ == shown@ + ": "@ + removed->Err_0@,
{
}

/// A file stands for the key whose path it has below the root, unless it is a directory or still
/// being written.
pub proof fn law_file_stands_for_its_key(
    root: &str,
    file: FoundFile,
    key: Option<Key>,
    canonical: &str,
    relative: Option<String>,
    text: &str,
    read: Key,
)
    requires
        call_ensures(key_of_file, (root, &file), key),
        canonical@ == file.canonical@,
        call_ensures(relative_to, (root, canonical), relative),
        relative is Some ==> text@ == relative->Some_0@,
        call_ensures(Key::from_url_safe, (text,), read),
    ensures
        !file.is_file || ".dyn-tmp-"@.is_prefix_of(file.name@) ==> key is None,
        file.is_file && !".dyn-tmp-"@.is_prefix_of(file.name@) ==> key is Some == relative is Some,
        key is Some ==> key->Some_0@ == read@,
{
}

/// Where every entry can be read, the values are those of the files: a key is there exactly if some
/// file stands for it, with what the last such file holds.
pub proof fn law_entries_hold_the_files(
    directory: &Directory,
    items: &Vec<ListedFile>,
    values: Result<Dict<String, Arc<Vec<u8>>>, StoreError>,
    key: Seq<char>,
)
    requires
        call_ensures(Directory::entries, (directory, items), values),
        forall|i: int|
            0 <= i < items@.len() ==> (#[trigger] items@[i]) is Ok && (file_key(
                directory@.root,
                items@[i]->Ok_0.0,
            ) is Some ==> items@[i]->Ok_0.1 is Ok),
    ensures
        values is Ok,
        values->Ok_0@.contains_key(key) <==> exists|i: int|
            0 <= i < items@.len() && file_key(
                directory@.root,
                (#[trigger] items@[i])->Ok_0.0,
            ) == Some(key),
        forall|i: int|
            0 <= i < items@.len() && file_key(directory@.root, (#[trigger] items@[i])->Ok_0.0)
                == Some(key) && (forall|j: int|
                i < j < items@.len() ==> file_key(
                    directory@.root,
                    (#[trigger] items@[j])->Ok_0.0,
                ) != Some(key)) ==> values->Ok_0@[key] == items@[i]->Ok_0.1->Ok_0,
{
    lemma_collected_files(items@, directory@.root, directory@.path, key);
    assert forall|i: int|
        0 <= i < items@.len() && file_key(directory@.root, (#[trigger] items@[i])->Ok_0.0) == Some(
            key,
        ) && (forall|j: int|
            i < j < items@.len() ==> file_key(directory@.root, (#[trigger] items@[j])->Ok_0.0)
                != Some(key)) implies values->Ok_0@[key] == items@[i]->Ok_0.1->Ok_0 by {
        lemma_last_collected(items@, directory@.root, directory@.path, key, i);
    }
}

proof fn lemma_collected_files(
    items: Seq<ListedFile>,
    root: Seq<char>,
    path: Seq<char>,
    key: Seq<char>,
)
    requires
        forall|i: int|
            0 <= i < items.len() ==> (#[trigger] items[i]) is Ok && (file_key(
                root,
                items[i]->Ok_0.0,
            ) is Some ==> items[i]->Ok_0.1 is Ok),
    ensures
        collected(items, root, path) is Ok,
        collected(items, root, path)->Ok_0.contains_key(key) <==> exists|i: int|
            0 <= i < items.len() && file_key(root, (#[trigger] items[i])->Ok_0.0) == Some(key),
    decreases items.len(),
{
    if items.len() > 0 {
        let init = items.drop_last();
        assert forall|i: int| 0 <= i < init.len() implies (#[trigger] init[i]) is Ok && (file_key(
            root,
            init[i]->Ok_0.0,
        ) is Some ==> init[i]->Ok_0.1 is Ok) by {
            assert(items[i] == init[i]);
        }
        lemma_collected_files(init, root, path, key);
        let n = items.len() - 1;
        assert(items[n] is Ok);
        assert(items[n] == items.last());
        if exists|i: int|
            0 <= i < items.len() && file_key(root, (#[trigger] items[i])->Ok_0.0) == Some(key) {
            let i = choose|i: int|
                0 <= i < items.len() && file_key(root, (#[trigger] items[i])->Ok_0.0) == Some(key);
            if i < n {
                assert(file_key(root, init[i]->Ok_0.0) == Some(key));
            }
        }
        if collected(init, root, path)->Ok_0.contains_key(key) {
            let i = choose|i: int|
                0 <= i < init.len() && file_key(root, (#[trigger] init[i])->Ok_0.0) == Some(key);
            assert(file_key(root, items[i]->Ok_0.0) == Some(key));
        }
    }
}

proof fn lemma_last_collected(
    items: Seq<ListedFile>,
    root: Seq<char>,
    path: Seq<char>,
    key: Seq<char>,
    i: int,
)
    requires
        forall|k: int|
            0 <= k < items.len() ==> (#[trigger] items[k]) is Ok && (file_key(
                root,
                items[k]->Ok_0.0,
            ) is Some ==> items[k]->Ok_0.1 is Ok),
        0 <= i < items.len(),
        file_key(root, items[i]->Ok_0.0) == Some(key),
        forall|j: int|
            i < j < items.len() ==> file_key(root, (#[trigger] items[j])->Ok_0.0) != Some(key),
    ensures
        collected(items, root, path) is Ok,
        collected(items, root, path)->Ok_0[key] == items[i]->Ok_0.1->Ok_0,
    decreases items.len(),
{
    let n = items.len() - 1;
    let init = items.drop_last();
    assert(items[n] is Ok);
    assert forall|k: int| 0 <= k < init.len() implies (#[trigger] init[k]) is Ok && (file_key(
        root,
        init[k]->Ok_0.0,
    ) is Some ==> init[k]->Ok_0.1 is Ok) by {
        assert(items[k] == init[k]);
    }
    lemma_collected_files(init, root, path, key);
    if i < n {
        assert(file_key(root, items[n]->Ok_0.0) != Some(key));
        assert forall|j: int| i < j < init.len() implies file_key(root, (#[trigger] init[j])->Ok_0.0)
            != Some(key) by {
            assert(items[j] == init[j]);
        }
        lemma_last_collected(init, root, path, key, i);
    }
}

/// The first entry that cannot be read is what is told, and no value is.
pub proof fn law_first_unreadable_entry_is_told(
    directory: &Directory,
    items: &Vec<ListedFile>,
    values: Result<Dict<String, Arc<Vec<u8>>>, StoreError>,
    n: int,
)
    requires
        call_ensures(Directory::entries, (directory, items), values),
        0 <= n < items@.len(),
        forall|i: int|
            0 <= i < n ==> (#[trigger] items@[i]) is Ok && (file_key(
                directory@.root,
                items@[i]->Ok_0.0,
            ) is Some ==> items@[i]->Ok_0.1 is Ok),
        items@[n] is Err || (file_key(directory@.root, items@[n]->Ok_0.0) is Some
            && items@[n]->Ok_0.1 is Err),
    ensures
        values is Err,
        values->Err_0 is FilesystemError,
        items@[n] is Err ==> values->Err_0->FilesystemError_0@ == items@[n]->Err_0@,
        items@[n] is Ok ==> values->Err_0->FilesystemError_0@ == directory@.path + ": "@
            + items@[n]->Ok_0.1->Err_0@,
{
    let root = directory@.root;
    let path = directory@.path;
    let init = items@.take(n);
    assert forall|i: int| 0 <= i < init.len() implies (#[trigger] init[i]) is Ok && (file_key(
        root,
        init[i]->Ok_0.0,
    ) is Some ==> init[i]->Ok_0.1 is Ok) by {
        assert(items@[i] == init[i]);
    }
    lemma_collected_files(init, root, path, Seq::empty());
    assert(items@.take(n + 1).drop_last() =~= init);
    assert(items@.take(n + 1).last() == items@[n]);
    lemma_collected_error(items@, root, path, n + 1);
}

/// A watcher is told of exactly the changes to files that stand for keys: of the value where a file
/// came or changed and can be read, of the key where it went.
pub proof fn law_watcher_is_told_of_changes(
    directory: &Directory,
    changed: WatchedPath,
    change: FileChange,
    action: WatchAction,
    read: Result<Arc<Vec<u8>>, String>,
    event: Option<WatchEvent>,
    dir: &str,
    root: &str,
    path: &str,
    plain_changed: String,
    plain_dir: String,
    canonical: &str,
    relative: Option<String>,
    text: &str,
    key: Key,
)
    requires
        call_ensures(Directory::watch, (directory, &changed, change), action),
        call_ensures(Directory::watch_event, (action, read), event),
        dir@ == directory@.path,
        path@ == changed.path@,
        canonical@ == changed.canonical@,
        call_ensures(Directory::root, (directory,), root),
        call_ensures(plain_path, (path,), plain_changed),
        call_ensures(plain_path, (dir,), plain_dir),
        call_ensures(relative_to, (root, canonical), relative),
        relative is Some ==> text@ == relative->Some_0@,
        call_ensures(Key::from_url_safe, (text,), key),
    ensures
        ({
            let counts = plain_changed@ != plain_dir@ && relative is Some && !(changed.name is Some
                && ".dyn-tmp-"@.is_prefix_of(changed.name->Some_0@));
            let came = change == FileChange::Created || change == FileChange::ContentChanged
                || change == FileChange::RenamedTo;
            &&& action is Read <==> counts && came
            &&& action is Deleted <==> counts && change == FileChange::Removed
            &&& action is Read ==> action->Read_0@ == key@
            &&& action is Deleted ==> action->Deleted_0@ == key@
            &&& event is Some <==> (counts && came && read is Ok) || (counts && change
                == FileChange::Removed)
            &&& event is Some && came ==> event->Some_0 is Put
                && event->Some_0->Put_0.spec_key() == key@ && event->Some_0->Put_0.spec_value()
                == read->Ok_0
            &&& event is Some && change == FileChange::Removed ==> event->Some_0 is Delete
                && event->Some_0->Delete_0@ == key@
        }),
{
}

/// A value is first written to a file of its own in the directory, whose name marks it and holds the
/// time and the number.
pub proof fn law_temporary_file(
    directory: &Directory,
    nanos: u128,
    random: u64,
    path: String,
    dir: &str,
    time: String,
    number: String,
    name: &str,
    joined_path: String,
)
    requires
        call_ensures(Directory::temp_path_for, (directory, nanos, random), path),
        dir@ == directory@.path,
        call_ensures(to_padded_hex, (nanos, 32usize), time),
        call_ensures(to_padded_hex, (random as u128, 16usize), number),
        name@ == ".dyn-tmp-"@ + time@ + "-"@ + number@,
        call_ensures(join_path, (dir, name), joined_path),
    ensures
        path@ == joined_path@,
{
}

/// The file of a key has the name of the key, made safe, in the directory of the bucket.
pub proof fn law_file_of_a_key(
    directory: &Directory,
    key: &Key,
    path: String,
    dir: &str,
    name: &str,
    safe: Key,
    joined_path: String,
)
    requires
        call_ensures(Directory::file_path, (directory, key), path),
        dir@ == directory@.path,
        call_ensures(Key::url_safe, (key,), safe),
        name@ == safe@,
        call_ensures(join_path, (dir, name), joined_path),
    ensures
        path@ == joined_path@,
{
}

/// An error of the file system tells what it is about.
pub proof fn law_error_tells_its_context(
    context: &str,
    text: &str,
    words: String,
    error: StoreError,
    plain_error: StoreError,
)
    requires
        call_ensures(a_to_fs_err, (context, text), error),
        call_ensures(to_fs_err, (words,), plain_error),
    ensures
        error is FilesystemError && error->FilesystemError_0@ == context@ + ": "@ + text@,
        plain_error == StoreError::FilesystemError(words),
{
}

/// A bucket that was put to use is found with the time that was asked for, or the usual one; putting
/// it to use again changes nothing; and no other bucket is touched.
pub proof fn law_bucket_is_put_to_use(
    store: &mut FileStore,
    name: &str,
    ttl: Option<u64>,
    state: PathState,
    made: Result<(), String>,
    root: String,
    bucket: Result<String, StoreError>,
    path: String,
    shown: &str,
    directory: Option<&Directory>,
    before: Option<&Directory>,
    other: Seq<char>,
    plain_text: String,
)
    requires
        old(store).wf(),
        call_ensures(FileStore::bucket_path, (&*old(store), name), path),
        call_ensures(
            FileStore::get_or_create_bucket,
            (store, name, ttl, state, made, root),
            bucket,
        ),
        shown@ == path@,
        call_ensures(plain_path, (shown,), plain_text),
        call_ensures(FileStore::directory, (&*old(store), shown), before),
        call_ensures(FileStore::directory, (&*final(store), shown), directory),
    ensures
        bucket is Ok <==> before is Some || state == PathState::Directory || (state
            == PathState::Missing && made is Ok),
        bucket is Ok ==> bucket->Ok_0@ == path@ && directory is Some,
        bucket is Err ==> directory is None && bucket->Err_0 is FilesystemError,
        before is Some ==> directory is Some && directory->Some_0@ == before->Some_0@,
        bucket is Ok && before is None ==> {
            &&& directory->Some_0@.path == path@
            &&& directory->Some_0@.root == root@
            &&& directory->Some_0@.owned == Set::<Seq<char>>::empty()
            &&& ttl is Some && ttl->Some_0 >= 1_000_000_000 ==> directory->Some_0@.ttl
                == ttl->Some_0
            &&& ttl is Some && ttl->Some_0 < 1_000_000_000 ==> directory->Some_0@.ttl
                == 1_000_000_000
            &&& ttl is None ==> directory->Some_0@.ttl == 10_000_000_000
        },
        other != plain_text@ ==> final(store)@.contains_key(other) == old(store)@.contains_key(
            other,
        ),
        other != plain_text@ && old(store)@.contains_key(other) ==> final(store)@[other] == old(
            store
        )@[other],
{
}

/// A bucket is found where it is in use or has a directory, which is then put to use with the usual
/// time; no other bucket is touched.
pub proof fn law_bucket_is_found(
    store: &mut FileStore,
    name: &str,
    state: PathState,
    root: String,
    bucket: Result<Option<String>, StoreError>,
    path: String,
    shown: &str,
    directory: Option<&Directory>,
    before: Option<&Directory>,
    other: Seq<char>,
    plain_text: String,
)
    requires
        old(store).wf(),
        call_ensures(FileStore::bucket_path, (&*old(store), name), path),
        call_ensures(FileStore::get_bucket, (store, name, state, root), bucket),
        shown@ == path@,
        call_ensures(plain_path, (shown,), plain_text),
        call_ensures(FileStore::directory, (&*old(store), shown), before),
        call_ensures(FileStore::directory, (&*final(store), shown), directory),
    ensures
        bucket is Err <==> before is None && state == PathState::Other,
        bucket is Ok ==> bucket->Ok_0 is Some == (before is Some || state == PathState::Directory),
        bucket is Ok && bucket->Ok_0 is Some ==> bucket->Ok_0->Some_0@ == path@ && directory is Some,
        bucket is Err || bucket->Ok_0 is None ==> directory is None,
        before is Some ==> directory is Some && directory->Some_0@ == before->Some_0@,
        before is None && state == PathState::Directory ==> directory->Some_0@.path == path@
            && directory->Some_0@.root == root@ && directory->Some_0@.ttl == 10_000_000_000
            && directory->Some_0@.owned == Set::<Seq<char>>::empty(),
        other != plain_text@ ==> final(store)@.contains_key(other) == old(store)@.contains_key(
            other,
        ),
        other != plain_text@ && old(store)@.contains_key(other) ==> final(store)@[other] == old(
            store
        )@[other],
{
}

/// What a bucket's directory has to be made of: it is made where nothing stands, and refused where
/// something else does.
pub proof fn law_directory_is_made(state: PathState, make: Result<bool, StoreError>)
    requires
        call_ensures(FileStore::ensure_dir, (state,), make),
    ensures
        make == Ok::<bool, StoreError>(true) <==> state == PathState::Missing,
        make == Ok::<bool, StoreError>(false) <==> state == PathState::Directory,
        make is Err <==> state == PathState::Other,
        make is Err ==> make->Err_0 is FilesystemError && make->Err_0->FilesystemError_0@
            == "Bucket name is not a directory"@,
{
}

/// Files are kept alive often enough: the round comes at least every second, or well within the time
/// that the files of any bucket are kept, and not more often than that.
pub proof fn law_rounds_come_in_time(
    store: &FileStore,
    ttl: u64,
    interval: u64,
    path: Seq<char>,
)
    requires
        store.wf(),
        call_ensures(FileStore::shortest_ttl, (store,), ttl),
        call_ensures(FileStore::expiry_interval, (store,), interval),
    ensures
        ttl <= 10_000_000_000,
        store@.contains_key(path) ==> ttl <= store@[path].ttl,
        (forall|p: Seq<char>| #[trigger]
            store@.contains_key(p) ==> store@[p].ttl >= 10_000_000_000) ==> ttl == 10_000_000_000,
        interval >= 1_000_000_000,
        store@.contains_key(path) && interval > 1_000_000_000 ==> interval * 3
            <= store@[path].ttl,
        ttl >= 3_000_000_000 ==> interval == ttl / 3,
        ttl < 3_000_000_000 ==> interval == 1_000_000_000,
{
    let t = choose|t: u64| #[trigger]
        is_shortest_ttl(store@, t) && interval == greater(t / 3, MIN_KEEP_ALIVE);
    assert(t == ttl) by {
        if t != DEFAULT_TTL {
            let p = choose|p: Seq<char>| #[trigger] store@.contains_key(p) && store@[p].ttl == t;
            assert(store@.contains_key(p));
        }
        if ttl != DEFAULT_TTL {
            let p = choose|p: Seq<char>| #[trigger] store@.contains_key(p) && store@[p].ttl == ttl;
            assert(store@.contains_key(p));
        }
    }
}

proof fn lemma_all_kept_alive(store: FileStore, paths: Vec<String>, path: Seq<char>)
    requires
        call_ensures(FileStore::keep_alive, (&store,), paths),
    ensures
        is_owned(store@, path) == views(paths@).contains(path),
{
    assert(views(paths@).to_set().contains(path) == views(paths@).contains(path));
}

/// Every file of this process is kept alive, in whichever bucket it is, and no other is; at the end
/// every bucket is handed over, and none is in use any more.
pub proof fn law_all_buckets_are_looked_after(
    store: &mut FileStore,
    alive: Vec<String>,
    name: Seq<char>,
    path: Seq<char>,
    handed: Vec<Directory>,
    shown: &str,
    after: Option<&Directory>,
)
    requires
        old(store).wf(),
        call_ensures(FileStore::keep_alive, (&*old(store),), alive),
        call_ensures(FileStore::shutdown, (store,), handed),
        call_ensures(FileStore::directory, (&*final(store), shown), after),
    ensures
        old(store)@.contains_key(name) && old(store)@[name].owned.contains(path) ==> views(
            alive@,
        ).contains(path),
        views(alive@).contains(path) ==> exists|n: Seq<char>| #[trigger]
            old(store)@.contains_key(n) && old(store)@[n].owned.contains(path),
        old(store)@.contains_key(name) ==> exists|i: int|
            0 <= i < handed@.len() && (#[trigger] handed@[i])@ == old(store)@[name],
        forall|i: int|
            0 <= i < handed@.len() ==> exists|n: Seq<char>| #[trigger]
                old(store)@.contains_key(n) && old(store)@[n] == (#[trigger] handed@[i])@,
        after is None,
{
    lemma_all_kept_alive(*old(store), alive, path);
    let names = choose|names: Seq<Seq<char>>| lists(names, handed@, old(store)@);
    if old(store)@.contains_key(name) {
        let i = choose|i: int| 0 <= i < names.len() && names[i] == name;
        assert(old(store)@[names[i]] == handed@[i]@);
    }
    assert forall|i: int| 0 <= i < handed@.len() implies exists|n: Seq<char>| #[trigger]
        old(store)@.contains_key(n) && old(store)@[n] == (#[trigger] handed@[i])@ by {
        assert(old(store)@.contains_key(names[i]) && old(store)@[names[i]] == handed@[i]@);
    }
}

/// A change that is made to the directory of a bucket is found in that bucket, and in no other.
pub proof fn law_changed_directory_is_found(
    store: &mut FileStore,
    path: &str,
    found: &mut Directory,
    other: Seq<char>,
    plain_text: String,
    read: Option<&Directory>,
)
    requires
        old(store).wf(),
        call_ensures(FileStore::directory_mut, (store, path), Some(found)),
        call_ensures(plain_path, (path,), plain_text),
        call_ensures(FileStore::directory, (&*final(store), path), read),
    ensures
        old(store)@.contains_key(plain_text@),
        old(found)@ == old(store)@[plain_text@],
        read is Some,
        read->Some_0@ == final(found)@,
        other != plain_text@ ==> final(store)@.contains_key(other) == old(store)@.contains_key(
            other,
        ),
        other != plain_text@ && old(store)@.contains_key(other) ==> final(store)@[other] == old(
            store
        )@[other],
{
}

/// A store keeps its identifier and its root, whatever is put to use.
pub proof fn law_store_keeps_its_identifier(
    store: &mut FileStore,
    name: &str,
    ttl: Option<u64>,
    state: PathState,
    made: Result<(), String>,
    root: String,
    bucket: Result<String, StoreError>,
    before: u64,
    after: u64,
    path_before: String,
    path_after: String,
)
    requires
        call_ensures(FileStore::connection_id, (&*old(store),), before),
        call_ensures(FileStore::bucket_path, (&*old(store), name), path_before),
        call_ensures(
            FileStore::get_or_create_bucket,
            (store, name, ttl, state, made, root),
            bucket,
        ),
        call_ensures(FileStore::connection_id, (&*final(store),), after),
        call_ensures(FileStore::bucket_path, (&*final(store), name), path_after),
    ensures
        after == before,
        path_after@ == path_before@,
{
}

/// The path of a bucket is its name below the root that the store was made with.
pub proof fn law_path_of_a_bucket(
    root: String,
    shown: &str,
    store: FileStore,
    name: &str,
    path: String,
    joined_path: String,
    directory: Option<&Directory>,
)
    requires
        call_ensures(FileStore::new, (root,), store),
        shown@ == root@,
        call_ensures(FileStore::bucket_path, (&store, name), path),
        call_ensures(join_path, (shown, name), joined_path),
        call_ensures(FileStore::directory, (&store, name), directory),
    ensures
        path@ == joined_path@,
        directory is None,
{
}

} // verus!
