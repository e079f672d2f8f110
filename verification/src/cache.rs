//! The two caches: file contents and parsed trees, each kept under the file's
//! path together with the modification time it was read at. An entry serves
//! a request only where the request comes with that very time; any other time
//! is a miss, and the entry is dropped at once.

use dashmap::DashMap;
use std::sync::Arc;
use tree_sitter::Tree;
use vstd::prelude::*;

verus! {

/// The concurrent map of the `dashmap` crate.
#[verifier::external_type_specification]
#[verifier::external_body]
#[verifier::reject_recursive_types(K)]
#[verifier::reject_recursive_types(V)]
#[verifier::reject_recursive_types(S)]
pub struct ExDashMap<K, V, S>(DashMap<K, V, S>);

/// The time at which a file was last modified, relative to the Unix epoch.
#[derive(Debug, Clone, Copy, PartialEq, Eq, Hash, Structural)]
pub struct ModifiedTime {
    /// Whether the time lies before the epoch.
    pub before_epoch: bool,
    /// Whole seconds between the epoch and the time.
    pub seconds: u64,
    /// Nanoseconds beyond the whole seconds.
    pub nanos: u32,
}

/// A file's content, with the modification time at which it was read.
#[derive(Debug, Clone)]
pub struct CachedContent {
    pub content: Arc<String>,
    pub modified_time: ModifiedTime,
}

/// A file's parsed tree, with the modification time of the content it was
/// parsed from.
#[derive(Debug, Clone)]
pub struct CachedTree {
    pub tree: Tree,
    pub modified_time: ModifiedTime,
}

/// What a map of file contents holds, by path.
pub uninterp spec fn content_entries(map: DashMap<String, CachedContent>) -> Map<
    Seq<char>,
    CachedContent,
>;

/// What a map of parsed trees holds, by path.
pub uninterp spec fn tree_entries(map: DashMap<String, CachedTree>) -> Map<Seq<char>, CachedTree>;

/// `DashMap::new` makes an empty table.
#[verifier::external_body]
fn new_content_map() -> (table: DashMap<String, CachedContent>)
    ensures
        content_entries(table).dom() == Set::<Seq<char>>::empty(),
{
    DashMap::new()
}

/// `DashMap::get` finds the entry under a key; the wrapper hands out a copy
/// of its value.
#[verifier::external_body]
fn get_content(table: &DashMap<String, CachedContent>, path: &str) -> (found: Option<CachedContent>)
    ensures
        match found {
            Some(entry) => content_entries(*table).contains_key(path@) && content_entries(
                *table,
            )[path@] == entry,
            None => !content_entries(*table).contains_key(path@),
        },
{
    table.get(path).map(|entry| entry.value().clone())
}

/// `DashMap::insert` puts a value under a key, in place of what stood there.
#[verifier::external_body]
fn insert_content(table: &mut DashMap<String, CachedContent>, path: String, entry: CachedContent)
    ensures
        content_entries(*final(table)) == content_entries(*old(table)).insert(path@, entry),
{
    table.insert(path, entry);
}

/// `DashMap::remove` takes out the entry under a key, if there is one.
#[verifier::external_body]
fn remove_content(table: &mut DashMap<String, CachedContent>, path: &str)
    ensures
        content_entries(*final(table)) == content_entries(*old(table)).remove(path@),
{
    table.remove(path);
}

/// `DashMap::clear` takes out every entry.
#[verifier::external_body]
fn clear_contents(table: &mut DashMap<String, CachedContent>)
    ensures
        content_entries(*final(table)).dom() == Set::<Seq<char>>::empty(),
{
    table.clear();
}

/// `DashMap::len` counts the entries.
#[verifier::external_body]
fn count_contents(table: &DashMap<String, CachedContent>) -> (n: usize)
    ensures
        content_entries(*table).dom().finite() ==> n == content_entries(*table).dom().len(),
{
    table.len()
}

/// `DashMap::new` makes an empty table.
#[verifier::external_body]
fn new_tree_map() -> (table: DashMap<String, CachedTree>)
    ensures
        tree_entries(table).dom() == Set::<Seq<char>>::empty(),
{
    DashMap::new()
}

/// `DashMap::get` finds the entry under a key; the wrapper hands out a copy
/// of its value.
#[verifier::external_body]
fn get_tree(table: &DashMap<String, CachedTree>, path: &str) -> (found: Option<CachedTree>)
    ensures
        match found {
            Some(entry) => tree_entries(*table).contains_key(path@) && tree_entries(*table)[path@]
                == entry,
            None => !tree_entries(*table).contains_key(path@),
        },
{
    table.get(path).map(|entry| entry.value().clone())
}

/// `DashMap::insert` puts a value under a key, in place of what stood there.
#[verifier::external_body]
fn insert_tree(table: &mut DashMap<String, CachedTree>, path: String, entry: CachedTree)
    ensures
        tree_entries(*final(table)) == tree_entries(*old(table)).insert(path@, entry),
{
    table.insert(path, entry);
}

/// `DashMap::remove` takes out the entry under a key, if there is one.
#[verifier::external_body]
fn remove_tree(table: &mut DashMap<String, CachedTree>, path: &str)
    ensures
        tree_entries(*final(table)) == tree_entries(*old(table)).remove(path@),
{
    table.remove(path);
}

/// `DashMap::clear` takes out every entry.
#[verifier::external_body]
fn clear_trees(table: &mut DashMap<String, CachedTree>)
    ensures
        tree_entries(*final(table)).dom() == Set::<Seq<char>>::empty(),
{
    table.clear();
}

/// `DashMap::len` counts the entries.
#[verifier::external_body]
fn count_trees(table: &DashMap<String, CachedTree>) -> (n: usize)
    ensures
        tree_entries(*table).dom().finite() ==> n == tree_entries(*table).dom().len(),
{
    table.len()
}

/// `Arc::clone` hands out another handle to the same value.
#[verifier::external_body]
pub(crate) fn share<T>(value: &Arc<T>) -> (handle: Arc<T>)
    ensures
        handle == *value,
{
    Arc::clone(value)
}

/// What a lookup under `path` finds in `entries` when the file's modification
/// time is `live` (none where the file cannot be examined): the entry, where
/// it was read at that very time.
pub open spec fn content_hit(
    entries: Map<Seq<char>, CachedContent>,
    path: Seq<char>,
    live: Option<ModifiedTime>,
) -> Option<CachedContent> {
    if entries.contains_key(path) && live == Some(entries[path].modified_time) {
        Some(entries[path])
    } else {
        None
    }
}

/// What a lookup leaves of `entries`: everything on a hit; on a miss
/// everything but the entry under `path`.
pub open spec fn content_after_lookup(
    entries: Map<Seq<char>, CachedContent>,
    path: Seq<char>,
    live: Option<ModifiedTime>,
) -> Map<Seq<char>, CachedContent> {
    if content_hit(entries, path, live) is Some {
        entries
    } else {
        entries.remove(path)
    }
}

/// Cache of file contents.
pub struct FileContentCache {
    cache: DashMap<String, CachedContent>,
}

impl View for FileContentCache {
    type V = Map<Seq<char>, CachedContent>;

    closed spec fn view(&self) -> Map<Seq<char>, CachedContent> {
        content_entries(self.cache)
    }
}

impl FileContentCache {
    /// The cache holds finitely many entries.
    pub open spec fn wf(&self) -> bool {
        self@.dom().finite()
    }

    /// An empty cache.
    pub fn new() -> (cache: Self)
        ensures
            cache.wf(),
            cache@ == Map::<Seq<char>, CachedContent>::empty(),
    {
        let cache = FileContentCache { cache: new_content_map() };
        assert(cache@ =~= Map::<Seq<char>, CachedContent>::empty());
        cache
    }

    /// Looks for the content of the file at `path`, whose modification time
    /// on disk is `live` at this moment (none where the file cannot be
    /// examined). Returns the cached content where it was read at that very
    /// time. Any other entry under the path is stale and is removed; the caller
    /// then reads the file and hands the content to `store`.
    pub fn get_or_read(&mut self, path: &str, live: Option<ModifiedTime>) -> (found: Option<
        CachedContent,
    >)
        requires
            old(self).wf(),
        ensures
            final(self).wf(),
            found == content_hit(old(self)@, path@, live),
            final(self)@ == content_after_lookup(old(self)@, path@, live),
    {
        if let Some(entry) = get_content(&self.cache, path) {
            if let Some(modified) = live {
                if modified == entry.modified_time {
                    return Some(entry);
                }
            }
            remove_content(&mut self.cache, path);
        } else {
            assert(self@.remove(path@) =~= self@);
        }
        None
    }

    /// Puts the content that was just read from the file at `path` into the
    /// cache, with the modification time that was taken before the read, and
    /// hands out the shared content.
    pub fn store(&mut self, path: &str, content: String, modified_time: ModifiedTime) -> (stored:
        CachedContent)
        requires
            old(self).wf(),
        ensures
            final(self).wf(),
            stored.content@ == content@,
            stored.modified_time == modified_time,
            final(self)@ == old(self)@.insert(path@, stored),
    {
        let content = Arc::new(content);
        let entry = CachedContent { content: share(&content), modified_time };
        insert_content(&mut self.cache, path.to_owned(), entry);
        CachedContent { content, modified_time }
    }

    /// Empties the cache.
    pub fn clear(&mut self)
        ensures
            final(self).wf(),
            final(self)@ == Map::<Seq<char>, CachedContent>::empty(),
    {
        clear_contents(&mut self.cache);
        assert(self@ =~= Map::<Seq<char>, CachedContent>::empty());
    }

    /// Removes the entry of one file.
    pub fn invalidate(&mut self, path: &str)
        requires
            old(self).wf(),
        ensures
            final(self).wf(),
            final(self)@ == old(self)@.remove(path@),
    {
        remove_content(&mut self.cache, path);
    }

    /// The number of entries.
    pub fn len(&self) -> (n: usize)
        requires
            self.wf(),
        ensures
            n == self@.dom().len(),
    {
        count_contents(&self.cache)
    }

    /// Whether the cache holds nothing.
    pub fn is_empty(&self) -> (b: bool)
        requires
            self.wf(),
        ensures
            b == (self@.dom().len() == 0),
    {
        count_contents(&self.cache) == 0
    }
}

/// A file that is read twice without a change in between is served from the
/// cache the second time, with the very content that the first read stored,
/// and the cache stays as it is.
pub proof fn lemma_cache_coherence(
    entries: Map<Seq<char>, CachedContent>,
    path: Seq<char>,
    stored: CachedContent,
)
    ensures
        content_hit(entries.insert(path, stored), path, Some(stored.modified_time)) == Some(stored),
        content_after_lookup(entries.insert(path, stored), path, Some(stored.modified_time))
            == entries.insert(path, stored),
{
}

/// Once a file's modification time differs from the one its entry was read
/// at, a lookup misses and the entry is gone; storing the fresh content then
/// leaves the cache with no more entries than it had.
pub proof fn lemma_cache_invalidation(
    entries: Map<Seq<char>, CachedContent>,
    path: Seq<char>,
    live: Option<ModifiedTime>,
    fresh: CachedContent,
)
    requires
        entries.dom().finite(),
        entries.contains_key(path),
        live != Some(entries[path].modified_time),
    ensures
        content_hit(entries, path, live) is None,
        !content_after_lookup(entries, path, live).contains_key(path),
        content_after_lookup(entries, path, live).insert(path, fresh).dom() == entries.dom(),
        content_after_lookup(entries, path, live).insert(path, fresh).dom().len()
            == entries.dom().len(),
{
    assert(content_after_lookup(entries, path, live).insert(path, fresh).dom() =~= entries.dom());
}

/// What a lookup under `path` with time `modified_time` finds in `entries`.
pub open spec fn tree_hit(
    entries: Map<Seq<char>, CachedTree>,
    path: Seq<char>,
    modified_time: ModifiedTime,
) -> Option<Tree> {
    if entries.contains_key(path) && entries[path].modified_time == modified_time {
        Some(entries[path].tree)
    } else {
        None
    }
}

/// What a lookup leaves of `entries`.
pub open spec fn trees_after_lookup(
    entries: Map<Seq<char>, CachedTree>,
    path: Seq<char>,
    modified_time: ModifiedTime,
) -> Map<Seq<char>, CachedTree> {
    if tree_hit(entries, path, modified_time) is Some {
        entries
    } else {
        entries.remove(path)
    }
}

/// Cache of parsed trees.
pub struct ParserCache {
    cache: DashMap<String, CachedTree>,
}

impl View for ParserCache {
    type V = Map<Seq<char>, CachedTree>;

    closed spec fn view(&self) -> Map<Seq<char>, CachedTree> {
        tree_entries(self.cache)
    }
}

impl ParserCache {
    /// The cache holds finitely many entries.
    pub open spec fn wf(&self) -> bool {
        self@.dom().finite()
    }

    /// An empty cache.
    pub fn new() -> (cache: Self)
        ensures
            cache.wf(),
            cache@ == Map::<Seq<char>, CachedTree>::empty(),
    {
        let cache = ParserCache { cache: new_tree_map() };
        assert(cache@ =~= Map::<Seq<char>, CachedTree>::empty());
        cache
    }

    /// The tree cached for the file at `path`, where it was parsed from the
    /// content with modification time `modified_time`. An entry with any
    /// other time is stale and is removed.
    pub fn get(&mut self, path: &str, modified_time: ModifiedTime) -> (tree: Option<Tree>)
        requires
            old(self).wf(),
        ensures
            final(self).wf(),
            tree == tree_hit(old(self)@, path@, modified_time),
            final(self)@ == trees_after_lookup(old(self)@, path@, modified_time),
    {
        if let Some(entry) = get_tree(&self.cache, path) {
            if entry.modified_time == modified_time {
                return Some(entry.tree);
            }
            remove_tree(&mut self.cache, path);
        } else {
            assert(self@.remove(path@) =~= self@);
        }
        None
    }

    /// Stores a tree that was parsed from the content with modification time
    /// `modified_time`.
    pub fn insert(&mut self, path: String, tree: Tree, modified_time: ModifiedTime)
        requires
            old(self).wf(),
        ensures
            final(self).wf(),
            final(self)@ == old(self)@.insert(path@, CachedTree { tree, modified_time }),
    {
        insert_tree(&mut self.cache, path, CachedTree { tree, modified_time });
    }

    /// Empties the cache.
    pub fn clear(&mut self)
        ensures
            final(self).wf(),
            final(self)@ == Map::<Seq<char>, CachedTree>::empty(),
    {
        clear_trees(&mut self.cache);
        assert(self@ =~= Map::<Seq<char>, CachedTree>::empty());
    }

    /// Removes the entry of one file.
    pub fn invalidate(&mut self, path: &str)
        requires
            old(self).wf(),
        ensures
            final(self).wf(),
            final(self)@ == old(self)@.remove(path@),
    {
        remove_tree(&mut self.cache, path);
    }

    /// The number of entries.
    pub fn len(&self) -> (n: usize)
        requires
            self.wf(),
        ensures
            n == self@.dom().len(),
    {
        count_trees(&self.cache)
    }
}

/// A tree is served only for the modification time it was stored with: a
/// lookup with that time finds it, a lookup with any other time finds
/// nothing and removes it.
pub proof fn lemma_tree_validity(
    entries: Map<Seq<char>, CachedTree>,
    path: Seq<char>,
    tree: Tree,
    stored_at: ModifiedTime,
    asked_at: ModifiedTime,
)
    ensures
        ({
            let after = entries.insert(path, CachedTree { tree, modified_time: stored_at });
            &&& asked_at == stored_at ==> tree_hit(after, path, asked_at) == Some(tree)
                && trees_after_lookup(after, path, asked_at) == after
            &&& asked_at != stored_at ==> tree_hit(after, path, asked_at) is None
                && !trees_after_lookup(after, path, asked_at).contains_key(path)
        }),
{
}

/// Both caches, owned by whoever runs the searches.
pub struct CacheManager {
    /// Cache of parsed trees.
    pub parser_cache: ParserCache,
    /// Cache of file contents.
    pub file_cache: FileContentCache,
}

impl CacheManager {
    /// Two empty caches.
    pub fn new() -> (manager: Self)
        ensures
            manager.parser_cache.wf(),
            manager.file_cache.wf(),
            manager.parser_cache@ == Map::<Seq<char>, CachedTree>::empty(),
            manager.file_cache@ == Map::<Seq<char>, CachedContent>::empty(),
    {
        CacheManager { parser_cache: ParserCache::new(), file_cache: FileContentCache::new() }
    }

    /// Removes what both caches hold of one file.
    pub fn invalidate_file(&mut self, path: &str)
        requires
            old(self).parser_cache.wf(),
            old(self).file_cache.wf(),
        ensures
            final(self).parser_cache.wf(),
            final(self).file_cache.wf(),
            final(self).parser_cache@ == old(self).parser_cache@.remove(path@),
            final(self).file_cache@ == old(self).file_cache@.remove(path@),
    {
        self.parser_cache.invalidate(path);
        self.file_cache.invalidate(path);
    }

    /// Empties both caches.
    pub fn clear(&mut self)
        ensures
            final(self).parser_cache.wf(),
            final(self).file_cache.wf(),
            final(self).parser_cache@ == Map::<Seq<char>, CachedTree>::empty(),
            final(self).file_cache@ == Map::<Seq<char>, CachedContent>::empty(),
    {
        self.parser_cache.clear();
        self.file_cache.clear();
    }
}

} // verus!
