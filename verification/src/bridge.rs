//! Bookkeeping of the remote file bridge.
//!
//! The bridge forwards reads and writes to a remote peer and mirrors
//! fetched content in a local disk cache.  This module owns everything the
//! bridge decides: which descriptors are registered and where their cursors
//! stand, which paths have already been fetched — a fetched path is served
//! from the cache and triggers no further network request — and which
//! request identifiers still await their response, each resolved exactly
//! once.  The embedding program owns the socket, the channels and the disk;
//! it consults these tables before every transfer.

use vstd::prelude::*;
use vstd::string::StringExecFns;
use std::collections::HashMap;

verus! {

/// Local bookkeeping for one registered remote-backed file.
#[derive(Debug, Clone)]
pub struct CachedFile {
    /// Read cursor within the cached content.
    pub position: usize,
    /// The tracee-requested path.
    pub path: String,
}

/// What an open does for a path: serve the local cache, or fetch the file
/// from the remote peer first.
#[derive(Clone, Copy, Debug, PartialEq, Eq, Structural)]
pub enum OpenAction {
    /// The path was fetched before; no network request is made.
    UseCache,
    /// First open of the path: a bounded full-file read goes out.
    FetchRemote,
}

/// The fetched-path record after `path` is noted: recorded once, however
/// often it is fetched.
pub open spec fn spec_note_fetched(fetched: Seq<Seq<char>>, path: Seq<char>) -> Seq<Seq<char>> {
    if fetched.contains(path) {
        fetched
    } else {
        fetched.push(path)
    }
}

/// What an open does for `path` given the fetched-path record.
pub open spec fn spec_open_action(fetched: Seq<Seq<char>>, path: Seq<char>) -> OpenAction {
    if fetched.contains(path) {
        OpenAction::UseCache
    } else {
        OpenAction::FetchRemote
    }
}

/// The pending record after `id` is taken: its first occurrence leaves,
/// or nothing moves when `id` is not pending.
pub open spec fn spec_take_pending(ids: Seq<Seq<char>>, id: Seq<char>) -> Seq<Seq<char>> {
    match ids.index_of_first(id) {
        Some(i) => ids.remove(i),
        None => ids,
    }
}

/// The bridge's verified state: registered descriptors, fetched paths,
/// outstanding request identifiers and the cache root.
pub struct WebSocketFileSystem {
    open_files: HashMap<i32, CachedFile>,
    fetched: Vec<String>,
    pending: Vec<String>,
    cache_dir: String,
}

impl WebSocketFileSystem {
    /// The registered descriptors: each to its path and cursor.
    pub closed spec fn open_files_view(&self) -> Map<i32, (Seq<char>, int)> {
        Map::new(
            |fd: i32| self.open_files@.contains_key(fd),
            |fd: i32| (self.open_files@[fd].path@, self.open_files@[fd].position as int),
        )
    }

    /// The paths already fetched from the remote peer.
    pub closed spec fn fetched_view(&self) -> Seq<Seq<char>> {
        Seq::new(self.fetched@.len(), |i: int| self.fetched@[i]@)
    }

    /// The identifiers of requests still awaiting their response.
    pub closed spec fn pending_view(&self) -> Seq<Seq<char>> {
        Seq::new(self.pending@.len(), |i: int| self.pending@[i]@)
    }

    /// The directory under which fetched content is mirrored.
    pub closed spec fn cache_root(&self) -> Seq<char> {
        self.cache_dir@
    }

    /// Bridge invariant: no request identifier is pending twice.
    pub open spec fn wf(&self) -> bool {
        self.pending_view().no_duplicates()
    }

    /// A bridge with nothing registered, nothing fetched and nothing
    /// pending, mirroring under `cache_dir`.
    pub fn new(cache_dir: String) -> (r: WebSocketFileSystem)
        ensures
            r.wf(),
            r.open_files_view() == Map::<i32, (Seq<char>, int)>::empty(),
            r.fetched_view() == Seq::<Seq<char>>::empty(),
            r.pending_view() == Seq::<Seq<char>>::empty(),
            r.cache_root() == cache_dir@,
    {
        let r = WebSocketFileSystem {
            open_files: HashMap::new(),
            fetched: Vec::new(),
            pending: Vec::new(),
            cache_dir,
        };
        proof {
            assert(r.open_files_view() =~= Map::<i32, (Seq<char>, int)>::empty());
            assert(r.fetched_view() =~= Seq::<Seq<char>>::empty());
            assert(r.pending_view() =~= Seq::<Seq<char>>::empty());
        }
        r
    }

    /// The place of `path` in the local cache: the cache root followed by
    /// the tracee-requested path.
    pub fn cache_path(&self, path: &String) -> (r: String)
        ensures
            r@ == self.cache_root() + path@,
    {
        self.cache_dir.clone().concat(path.as_str())
    }

    /// Registers `fd` for `path` with the cursor at zero.
    pub fn register_fd(&mut self, fd: i32, path: &str)
        ensures
            final(self).open_files_view() == old(self).open_files_view().insert(
                fd,
                (path@, 0int),
            ),
            final(self).fetched_view() == old(self).fetched_view(),
            final(self).pending_view() == old(self).pending_view(),
            final(self).cache_root() == old(self).cache_root(),
            final(self).wf() == old(self).wf(),
    {
        self.open_files.insert(fd, CachedFile { path: path.to_owned(), position: 0 });
        proof {
            assert(final(self).open_files_view() =~= old(self).open_files_view().insert(
                fd,
                (path@, 0int),
            ));
        }
    }

    /// Moves the cursor of a registered `fd` to `position`; an
    /// unregistered descriptor moves nothing.
    pub fn update_fd_position(&mut self, fd: i32, position: usize)
        ensures
            old(self).open_files_view().contains_key(fd) ==> final(self).open_files_view() == old(
                self,
            ).open_files_view().insert(fd, (old(self).open_files_view()[fd].0, position as int)),
            !old(self).open_files_view().contains_key(fd) ==> final(self).open_files_view() == old(
                self,
            ).open_files_view(),
            final(self).fetched_view() == old(self).fetched_view(),
            final(self).pending_view() == old(self).pending_view(),
            final(self).cache_root() == old(self).cache_root(),
            final(self).wf() == old(self).wf(),
    {
        match self.open_files.remove(&fd) {
            Some(file) => {
                self.open_files.insert(fd, CachedFile { position, path: file.path });
                proof {
                    assert(final(self).open_files_view() =~= old(self).open_files_view().insert(
                        fd,
                        (old(self).open_files_view()[fd].0, position as int),
                    ));
                }
            },
            None => {
                proof {
                    assert(final(self).open_files_view() =~= old(self).open_files_view());
                }
            },
        }
    }

    /// The path and cursor registered for `fd`, when any.
    pub fn get_file(&self, fd: i32) -> (r: Option<&CachedFile>)
        ensures
            match r {
                Some(c) => self.open_files_view().contains_key(fd) && c.path@
                    == self.open_files_view()[fd].0 && c.position as int
                    == self.open_files_view()[fd].1,
                None => !self.open_files_view().contains_key(fd),
            },
    {
        self.open_files.get(&fd)
    }

    /// Removes the entry of `fd`; says whether one was removed.  Later
    /// operations on that descriptor fall through as unrecognized.
    pub fn close_file(&mut self, fd: i32) -> (r: bool)
        ensures
            r == old(self).open_files_view().contains_key(fd),
            final(self).open_files_view() == old(self).open_files_view().remove(fd),
            final(self).fetched_view() == old(self).fetched_view(),
            final(self).pending_view() == old(self).pending_view(),
            final(self).cache_root() == old(self).cache_root(),
            final(self).wf() == old(self).wf(),
    {
        let r = self.open_files.remove(&fd).is_some();
        proof {
            assert(final(self).open_files_view() =~= old(self).open_files_view().remove(fd));
        }
        r
    }

    /// Whether `path` was fetched before.
    pub fn is_fetched(&self, path: &String) -> (r: bool)
        ensures
            r == self.fetched_view().contains(path@),
    {
        let mut i: usize = 0;
        while i < self.fetched.len()
            invariant
                i <= self.fetched@.len(),
                self.fetched_view().len() == self.fetched@.len(),
                forall|t: int| 0 <= t < i ==> self.fetched_view()[t] != path@,
            decreases self.fetched@.len() - i,
        {
            if self.fetched[i].eq(path) {
                assert(self.fetched_view()[i as int] == path@);
                return true;
            }
            i = i + 1;
        }
        false
    }

    /// What an open of `path` does: a fetched path is served from the
    /// cache, with no network request; any other path is fetched first.
    pub fn open_action(&self, path: &String) -> (r: OpenAction)
        ensures
            r == spec_open_action(self.fetched_view(), path@),
    {
        if self.is_fetched(path) {
            OpenAction::UseCache
        } else {
            OpenAction::FetchRemote
        }
    }

    /// Notes that `path` now lies in the local cache: after a successful
    /// fetch, or after a write-through the remote peer acknowledged.
    pub fn note_fetched(&mut self, path: &String)
        ensures
            final(self).fetched_view() == spec_note_fetched(old(self).fetched_view(), path@),
            final(self).open_files_view() == old(self).open_files_view(),
            final(self).pending_view() == old(self).pending_view(),
            final(self).cache_root() == old(self).cache_root(),
            final(self).wf() == old(self).wf(),
    {
        if !self.is_fetched(path) {
            self.fetched.push(path.clone());
            proof {
                assert(final(self).fetched_view() =~= old(self).fetched_view().push(path@));
            }
        }
    }

    /// Index of the first pending occurrence of `id`.
    fn find_pending(&self, id: &String) -> (r: Option<usize>)
        ensures
            match r {
                Some(i) => self.pending_view().index_of_first(id@) == Some(i as int),
                None => !self.pending_view().contains(id@),
            },
    {
        let mut i: usize = 0;
        while i < self.pending.len()
            invariant
                i <= self.pending@.len(),
                self.pending_view().len() == self.pending@.len(),
                forall|t: int| 0 <= t < i ==> self.pending_view()[t] != id@,
            decreases self.pending@.len() - i,
        {
            if self.pending[i].eq(id) {
                proof {
                    let v = self.pending_view();
                    assert(v[i as int] == id@);
                    v.index_of_first_ensures(id@);
                    let idx = v.index_of_first(id@).unwrap();
                    if idx < i as int {
                        assert(v[idx] != id@);
                    }
                    if idx > i as int {
                        assert(v[i as int] != id@);
                    }
                }
                return Some(i);
            }
            i = i + 1;
        }
        None
    }

    /// Records `id` as awaiting its response; says whether it was new.
    /// A duplicate identifier is not recorded twice.
    pub fn insert_pending(&mut self, id: &String) -> (r: bool)
        requires
            old(self).wf(),
        ensures
            final(self).wf(),
            r == !old(self).pending_view().contains(id@),
            r ==> final(self).pending_view() == old(self).pending_view().push(id@),
            !r ==> final(self).pending_view() == old(self).pending_view(),
            final(self).open_files_view() == old(self).open_files_view(),
            final(self).fetched_view() == old(self).fetched_view(),
            final(self).cache_root() == old(self).cache_root(),
    {
        match self.find_pending(id) {
            Some(_) => {
                proof {
                    old(self).pending_view().index_of_first_ensures(id@);
                }
                false
            },
            None => {
                self.pending.push(id.clone());
                proof {
                    assert(final(self).pending_view() =~= old(self).pending_view().push(id@));
                }
                true
            },
        }
    }

    /// Takes `id` out of the pending record: its completion may be
    /// fulfilled now, exactly once.  Says whether `id` was pending.
    pub fn take_pending(&mut self, id: &String) -> (r: bool)
        requires
            old(self).wf(),
        ensures
            final(self).wf(),
            r == old(self).pending_view().contains(id@),
            final(self).pending_view() == spec_take_pending(old(self).pending_view(), id@),
            final(self).open_files_view() == old(self).open_files_view(),
            final(self).fetched_view() == old(self).fetched_view(),
            final(self).cache_root() == old(self).cache_root(),
    {
        match self.find_pending(id) {
            Some(i) => {
                proof {
                    old(self).pending_view().index_of_first_ensures(id@);
                }
                self.pending.remove(i);
                proof {
                    let v = old(self).pending_view();
                    assert(final(self).pending_view() =~= v.remove(i as int));
                    lemma_remove_keeps_no_duplicates(v, i as int);
                }
                true
            },
            None => {
                proof {
                    old(self).pending_view().index_of_first_ensures(id@);
                }
                false
            },
        }
    }
}

/// Removing one element keeps the rest free of duplicates.
proof fn lemma_remove_keeps_no_duplicates(ids: Seq<Seq<char>>, i: int)
    requires
        ids.no_duplicates(),
        0 <= i < ids.len(),
    ensures
        ids.remove(i).no_duplicates(),
{
    let rem = ids.remove(i);
    assert forall|a: int, b: int|
        0 <= a < rem.len() && 0 <= b < rem.len() && a != b implies rem[a] != rem[b] by {
        let a2 = if a < i {
            a
        } else {
            a + 1
        };
        let b2 = if b < i {
            b
        } else {
            b + 1
        };
        assert(rem[a] == ids[a2] && rem[b] == ids[b2]);
    }
}

/// Law: once a path is fetched, a later open for the same path is served
/// from the cache and triggers no network request.
pub proof fn lemma_fetched_open_no_request(fetched: Seq<Seq<char>>, path: Seq<char>)
    ensures
        spec_open_action(spec_note_fetched(fetched, path), path) == OpenAction::UseCache,
{
    let noted = spec_note_fetched(fetched, path);
    if !fetched.contains(path) {
        assert(noted.last() == path);
        assert(noted.contains(path));
    }
}

/// Law: a pending request resolves exactly once.  Once its identifier is
/// taken, it is no longer pending, and taking it again finds nothing and
/// moves nothing.
pub proof fn lemma_resolve_exactly_once(ids: Seq<Seq<char>>, id: Seq<char>)
    requires
        ids.no_duplicates(),
    ensures
        !spec_take_pending(ids, id).contains(id),
        spec_take_pending(spec_take_pending(ids, id), id) == spec_take_pending(ids, id),
{
    ids.index_of_first_ensures(id);
    let taken = spec_take_pending(ids, id);
    match ids.index_of_first(id) {
        Some(i) => {
            assert forall|j: int| 0 <= j < taken.len() implies taken[j] != id by {
                let j2 = if j < i {
                    j
                } else {
                    j + 1
                };
                assert(taken[j] == ids[j2]);
                if ids[j2] == id {
                    assert(j2 != i ==> ids[j2] != ids[i]);
                }
            }
        },
        None => {
            assert(!ids.contains(id));
        },
    }
    taken.index_of_first_ensures(id);
    match taken.index_of_first(id) {
        Some(j) => {
            assert(taken.contains(id));
        },
        None => {},
    }
}

} // verus!
