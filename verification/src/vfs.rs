//! The virtual file table: in-memory content and cursor, keyed by
//! synthetic descriptor.
//!
//! Synthetic descriptors are allocated from a private counter starting above
//! the kernel's descriptor range, so an intercepted descriptor can never
//! collide with a real one.  An open entry holds a whole-file copy of the
//! content and a read cursor that stays within the content.  A write
//! replaces the entire stored content — whole-file overwrite, not a partial
//! patch — and rests the cursor at the end.  A close removes the entry, and
//! every later operation on that descriptor is unrecognized.
//!
//! The table is modelled by a sequence of [`FileModel`] records; every
//! operation is stated as a function of that model, and the laws of the
//! store (descriptor uniqueness, the write/read round trip, reads capped at
//! the remaining content, the emptiness of a read at the end, the
//! unrecognizability of a closed descriptor) are proved over the model.

use vstd::prelude::*;

verus! {

/// First synthetic descriptor, above any kernel-issued descriptor.
pub const FIRST_SYNTHETIC_FD: i32 = 0x10000;

/// Seek anchor: cursor set to the offset itself.
pub const SEEK_SET: u64 = 0;

/// Seek anchor: cursor moved relative to its current place.
pub const SEEK_CUR: u64 = 1;

/// Seek anchor: cursor set relative to the end of the content.
pub const SEEK_END: u64 = 2;

/// Mathematical model of one open virtual file.
pub struct FileModel {
    /// Synthetic descriptor marking interception ownership.
    pub fd: i32,
    /// Path under which the file was opened.
    pub path: Seq<char>,
    /// Whole-file content.
    pub content: Seq<u8>,
    /// Read cursor, always within `[0, content length]`.
    pub position: int,
}

impl FileModel {
    /// The entry's own invariant: the cursor stays within the content and
    /// the descriptor lies in the synthetic range below `bound`.
    pub open spec fn inv(self, bound: i32) -> bool {
        &&& 0 <= self.position <= self.content.len()
        &&& FIRST_SYNTHETIC_FD <= self.fd < bound
    }
}

/// One open virtual file: name, whole-file content, read cursor and the
/// synthetic descriptor that owns the entry.
pub struct VirtualFile {
    /// Synthetic descriptor marking interception ownership.
    pub fd: i32,
    /// Path under which the file was opened.
    pub path: String,
    /// Whole-file content.
    pub content: Vec<u8>,
    /// Read cursor, always within `[0, content length]`.
    pub position: usize,
}

impl View for VirtualFile {
    type V = FileModel;

    open spec fn view(&self) -> FileModel {
        FileModel {
            fd: self.fd,
            path: self.path@,
            content: self.content@,
            position: self.position as int,
        }
    }
}

/// Index of the entry owned by `fd`, or -1 when no entry is.
pub open spec fn fd_index(files: Seq<FileModel>, fd: i32) -> int
    decreases files.len(),
{
    if files.len() == 0 {
        -1
    } else if files.last().fd == fd {
        files.len() - 1
    } else {
        fd_index(files.drop_last(), fd)
    }
}

/// `fd` owns an entry of the table.
pub open spec fn is_live(files: Seq<FileModel>, fd: i32) -> bool {
    fd_index(files, fd) >= 0
}

/// Distinct entries are owned by distinct descriptors.
pub open spec fn fds_distinct(files: Seq<FileModel>) -> bool {
    forall|a: int, b: int| 0 <= a < b < files.len() ==> files[a].fd != files[b].fd
}

/// Table invariant: every entry is well formed below the descriptor
/// counter `next_fd`, and no two entries share a descriptor.
pub open spec fn wf_files(files: Seq<FileModel>, next_fd: i32) -> bool {
    &&& forall|i: int| 0 <= i < files.len() ==> (#[trigger] files[i]).inv(next_fd)
    &&& fds_distinct(files)
}

/// `fd_index` lands on an entry owned by `fd`, or on -1 exactly when no
/// entry is owned by `fd`.
pub proof fn lemma_fd_index_props(files: Seq<FileModel>, fd: i32)
    ensures
        -1 <= fd_index(files, fd) < files.len(),
        fd_index(files, fd) >= 0 ==> files[fd_index(files, fd)].fd == fd,
        forall|i: int| 0 <= i < files.len() && files[i].fd == fd ==> fd_index(files, fd) >= 0,
    decreases files.len(),
{
    if files.len() > 0 && files.last().fd != fd {
        lemma_fd_index_props(files.drop_last(), fd);
        assert forall|i: int|
            0 <= i < files.len() && files[i].fd == fd implies fd_index(files, fd) >= 0 by {
            assert(i < files.len() - 1);
            assert(files.drop_last()[i].fd == fd);
        }
    }
}

/// Under distinct descriptors, an entry owned by `fd` is the one
/// `fd_index` finds.
pub proof fn lemma_fd_index_unique(files: Seq<FileModel>, fd: i32, i: int)
    requires
        0 <= i < files.len(),
        files[i].fd == fd,
        fds_distinct(files),
    ensures
        fd_index(files, fd) == i,
{
    lemma_fd_index_props(files, fd);
    let r = fd_index(files, fd);
    if r != i {
        if r < i {
            assert(files[r].fd != files[i].fd);
        } else {
            assert(files[i].fd != files[r].fd);
        }
    }
}

/// Replacing an entry by one with the same descriptor moves no lookup.
pub proof fn lemma_fd_index_update(files: Seq<FileModel>, i: int, f2: FileModel, fd: i32)
    requires
        0 <= i < files.len(),
        f2.fd == files[i].fd,
    ensures
        fd_index(files.update(i, f2), fd) == fd_index(files, fd),
    decreases files.len(),
{
    let up = files.update(i, f2);
    if i == files.len() - 1 {
        assert(up.drop_last() =~= files.drop_last());
    } else {
        assert(up.last() == files.last());
        assert(up.drop_last() =~= files.drop_last().update(i, f2));
        lemma_fd_index_update(files.drop_last(), i, f2, fd);
    }
}

/// After the entry owned by `fd` is removed, no entry is owned by `fd`.
pub proof fn lemma_fd_index_remove(files: Seq<FileModel>, i: int, fd: i32)
    requires
        0 <= i < files.len(),
        files[i].fd == fd,
        fds_distinct(files),
    ensures
        fd_index(files.remove(i), fd) == -1,
{
    let rem = files.remove(i);
    lemma_fd_index_props(rem, fd);
    if fd_index(rem, fd) >= 0 {
        let r = fd_index(rem, fd);
        assert(rem[r].fd == fd);
        if r < i {
            assert(rem[r] == files[r]);
            assert(files[r].fd != files[i].fd);
        } else {
            assert(rem[r] == files[r + 1]);
            assert(files[i].fd != files[r + 1].fd);
        }
    }
}

/// How many bytes a read of `count` on entry `f` returns: at most the
/// requested count, and never more than what remains past the cursor.
pub open spec fn read_amount(f: FileModel, count: int) -> int {
    vstd::math::min(count, f.content.len() - f.position)
}

/// The entry opened for `path` with `content` under descriptor `fd`.
pub open spec fn opened_file(fd: i32, path: Seq<char>, content: Seq<u8>) -> FileModel {
    FileModel { fd: fd, path: path, content: content, position: 0 }
}

/// The table after an open: the new entry is appended.
pub open spec fn spec_open_table(
    files: Seq<FileModel>,
    fd: i32,
    path: Seq<char>,
    content: Seq<u8>,
) -> Seq<FileModel> {
    files.push(opened_file(fd, path, content))
}

/// Bytes a read of `count` on the entry of `fd` returns, or `None` when
/// the descriptor is unrecognized.
pub open spec fn spec_read_result(files: Seq<FileModel>, fd: i32, count: int) -> Option<Seq<u8>> {
    let i = fd_index(files, fd);
    if i < 0 {
        None
    } else {
        let f = files[i];
        Some(f.content.subrange(f.position, f.position + read_amount(f, count)))
    }
}

/// The table after a read of `count` on the entry of `fd`: the cursor
/// advances by what was returned.
pub open spec fn spec_read_table(files: Seq<FileModel>, fd: i32, count: int) -> Seq<FileModel> {
    let i = fd_index(files, fd);
    if i < 0 {
        files
    } else {
        let f = files[i];
        files.update(i, FileModel { position: f.position + read_amount(f, count), ..f })
    }
}

/// The table after a write of `data` on the entry of `fd`: the entire
/// stored content is replaced and the cursor rests at the new end.
pub open spec fn spec_write_table(files: Seq<FileModel>, fd: i32, data: Seq<u8>) -> Seq<FileModel> {
    let i = fd_index(files, fd);
    if i < 0 {
        files
    } else {
        let f = files[i];
        files.update(i, FileModel { content: data, position: data.len() as int, ..f })
    }
}

/// The cursor a seek lands on, or `None` when the descriptor or the anchor
/// is unrecognized or the target lies before the start.  A target past the
/// end rests at the end: the cursor stays within the content.
pub open spec fn spec_seek_pos(
    files: Seq<FileModel>,
    fd: i32,
    offset: int,
    whence: u64,
) -> Option<int> {
    let i = fd_index(files, fd);
    if i < 0 {
        None
    } else {
        let f = files[i];
        let raw = if whence == SEEK_SET {
            offset
        } else if whence == SEEK_CUR {
            f.position + offset
        } else if whence == SEEK_END {
            f.content.len() + offset
        } else {
            -1
        };
        if whence > SEEK_END || raw < 0 {
            None
        } else {
            Some(vstd::math::min(raw, f.content.len() as int))
        }
    }
}

/// The table after a seek on the entry of `fd`: the cursor rests on the
/// new place, or nothing moves when the seek is unrecognized.
pub open spec fn spec_seek_table(
    files: Seq<FileModel>,
    fd: i32,
    offset: int,
    whence: u64,
) -> Seq<FileModel> {
    match spec_seek_pos(files, fd, offset, whence) {
        None => files,
        Some(p) => {
            let i = fd_index(files, fd);
            files.update(i, FileModel { position: p, ..files[i] })
        },
    }
}

/// The table after a close of `fd`: the entry is removed, or nothing moves
/// when the descriptor is unrecognized.
pub open spec fn spec_close_table(files: Seq<FileModel>, fd: i32) -> Seq<FileModel> {
    let i = fd_index(files, fd);
    if i < 0 {
        files
    } else {
        files.remove(i)
    }
}

/// The in-memory backing store: the open virtual files and the private
/// descriptor counter.
pub struct FileTable {
    files: Vec<VirtualFile>,
    next_fd: i32,
}

impl View for FileTable {
    type V = Seq<FileModel>;

    closed spec fn view(&self) -> Seq<FileModel> {
        Seq::new(self.files@.len(), |i: int| self.files@[i]@)
    }
}

impl FileTable {
    /// The descriptor the next open will be given.
    pub closed spec fn spec_next_fd(self) -> i32 {
        self.next_fd
    }

    /// Table invariant: entries well formed and descriptors distinct.
    pub open spec fn wf(self) -> bool {
        &&& wf_files(self@, self.spec_next_fd())
        &&& FIRST_SYNTHETIC_FD <= self.spec_next_fd()
    }

    /// An empty table whose counter starts above the kernel's descriptor
    /// range.
    pub fn new() -> (t: FileTable)
        ensures
            t.wf(),
            t@ == Seq::<FileModel>::empty(),
            t.spec_next_fd() == FIRST_SYNTHETIC_FD,
    {
        let t = FileTable { files: Vec::new(), next_fd: FIRST_SYNTHETIC_FD };
        proof {
            assert(t@ =~= Seq::<FileModel>::empty());
        }
        t
    }

    /// Index of the entry owned by `fd`, or `None` when no entry is.
    fn find_fd(&self, fd: i32) -> (r: Option<usize>)
        requires
            self.wf(),
        ensures
            match r {
                Some(i) => fd_index(self@, fd) == i as int,
                None => fd_index(self@, fd) == -1,
            },
    {
        let mut i: usize = 0;
        while i < self.files.len()
            invariant
                self.wf(),
                i <= self.files@.len(),
                self@.len() == self.files@.len(),
                forall|t: int| 0 <= t < i ==> self@[t].fd != fd,
            decreases self.files@.len() - i,
        {
            if self.files[i].fd == fd {
                proof {
                    lemma_fd_index_unique(self@, fd, i as int);
                }
                return Some(i);
            }
            i = i + 1;
        }
        proof {
            lemma_fd_index_props(self@, fd);
        }
        None
    }

    /// Whether `fd` owns a live entry.
    pub fn is_open(&self, fd: i32) -> (r: bool)
        requires
            self.wf(),
        ensures
            r == is_live(self@, fd),
    {
        self.find_fd(fd).is_some()
    }

    /// Opens a copy of `content` under `path`: a fresh synthetic
    /// descriptor — distinct from every live one — with the cursor at zero.
    pub fn open(&mut self, path: String, content: Vec<u8>) -> (fd: i32)
        requires
            old(self).wf(),
            old(self).spec_next_fd() < i32::MAX,
        ensures
            final(self).wf(),
            fd == old(self).spec_next_fd(),
            final(self)@ == spec_open_table(old(self)@, fd, path@, content@),
            final(self).spec_next_fd() == old(self).spec_next_fd() + 1,
            !is_live(old(self)@, fd),
    {
        let fd = self.next_fd;
        proof {
            lemma_fd_index_props(self@, fd);
            if fd_index(self@, fd) >= 0 {
                assert(self@[fd_index(self@, fd)].inv(self.next_fd));
            }
        }
        let f = VirtualFile { fd: fd, path: path, content: content, position: 0 };
        self.files.push(f);
        self.next_fd = self.next_fd + 1;
        proof {
            assert(self@ =~= spec_open_table(old(self)@, fd, f.path@, f.content@));
            assert forall|i: int| 0 <= i < self@.len() implies (#[trigger] self@[i]).inv(
                self.next_fd,
            ) by {
                if i < self@.len() - 1 {
                    assert(self@[i] == old(self)@[i]);
                    assert(old(self)@[i].inv(old(self).next_fd));
                }
            }
            assert forall|a: int, b: int|
                0 <= a < b < self@.len() implies self@[a].fd != self@[b].fd by {
                if b == self@.len() - 1 {
                    assert(old(self)@[a].inv(old(self).next_fd));
                }
            }
        }
        fd
    }

    /// Reads up to `count` bytes at the cursor of the entry of `fd` and
    /// advances the cursor; zero remaining content yields an empty result,
    /// not an error.  An unrecognized descriptor moves nothing.
    pub fn read(&mut self, fd: i32, count: usize) -> (r: Option<Vec<u8>>)
        requires
            old(self).wf(),
        ensures
            final(self).wf(),
            match r {
                Some(v) => {
                    &&& is_live(old(self)@, fd)
                    &&& Some(v@) == spec_read_result(old(self)@, fd, count as int)
                },
                None => !is_live(old(self)@, fd),
            },
            final(self)@ == spec_read_table(old(self)@, fd, count as int),
            final(self).spec_next_fd() == old(self).spec_next_fd(),
    {
        let idx = self.find_fd(fd);
        match idx {
            None => {
                proof {
                    assert(final(self)@ =~= spec_read_table(old(self)@, fd, count as int));
                }
                None
            },
            Some(i) => {
                proof {
                    lemma_fd_index_props(self@, fd);
                    assert(self@[i as int].inv(self.next_fd));
                }
                let f = &self.files[i];
                let remaining = f.content.len() - f.position;
                let n = if count < remaining {
                    count
                } else {
                    remaining
                };
                let mut out: Vec<u8> = Vec::new();
                let mut t: usize = 0;
                let start = f.position;
                while t < n
                    invariant
                        i < self.files@.len(),
                        start + n <= self.files@[i as int].content@.len(),
                        start + n <= usize::MAX,
                        t <= n,
                        out@ == self.files@[i as int].content@.subrange(
                            start as int,
                            start + t as int,
                        ),
                    decreases n - t,
                {
                    let b = self.files[i].content[start + t];
                    out.push(b);
                    proof {
                        assert(out@ =~= self.files@[i as int].content@.subrange(
                            start as int,
                            start + t as int + 1,
                        ));
                    }
                    t = t + 1;
                }
                let new_pos = start + n;
                let old_file = self.files.remove(i);
                let new_file = VirtualFile { position: new_pos, ..old_file };
                self.files.insert(i, new_file);
                proof {
                    let m = old(self)@;
                    let fm = m[i as int];
                    lemma_fd_index_update(
                        m,
                        i as int,
                        FileModel { position: fm.position + read_amount(fm, count as int), ..fm },
                        fd,
                    );
                    assert(self@ =~= spec_read_table(m, fd, count as int));
                    assert forall|k: int| 0 <= k < self@.len() implies (#[trigger] self@[k]).inv(
                        self.next_fd,
                    ) by {
                        assert(m[k].inv(self.next_fd));
                    }
                    assert(out@ =~= fm.content.subrange(
                        fm.position,
                        fm.position + read_amount(fm, count as int),
                    ));
                }
                Some(out)
            },
        }
    }

    /// Replaces the entire stored content of the entry of `fd` with `data`
    /// — whole-file overwrite — and rests the cursor at the new end.
    /// Returns how many bytes were taken, or `None` for an unrecognized
    /// descriptor, which moves nothing.
    pub fn write(&mut self, fd: i32, data: Vec<u8>) -> (r: Option<usize>)
        requires
            old(self).wf(),
        ensures
            final(self).wf(),
            match r {
                Some(n) => is_live(old(self)@, fd) && n == data@.len(),
                None => !is_live(old(self)@, fd),
            },
            final(self)@ == spec_write_table(old(self)@, fd, data@),
            final(self).spec_next_fd() == old(self).spec_next_fd(),
    {
        let idx = self.find_fd(fd);
        match idx {
            None => {
                proof {
                    assert(final(self)@ =~= spec_write_table(old(self)@, fd, data@));
                }
                None
            },
            Some(i) => {
                proof {
                    lemma_fd_index_props(self@, fd);
                    assert(self@[i as int].inv(self.next_fd));
                }
                let n = data.len();
                let old_file = self.files.remove(i);
                let new_file = VirtualFile { content: data, position: n, ..old_file };
                self.files.insert(i, new_file);
                proof {
                    let m = old(self)@;
                    let fm = m[i as int];
                    lemma_fd_index_update(
                        m,
                        i as int,
                        FileModel { content: new_file.content@, position: n as int, ..fm },
                        fd,
                    );
                    assert(self@ =~= spec_write_table(m, fd, new_file.content@));
                    assert forall|k: int| 0 <= k < self@.len() implies (#[trigger] self@[k]).inv(
                        self.next_fd,
                    ) by {
                        assert(m[k].inv(self.next_fd));
                    }
                }
                Some(n)
            },
        }
    }

    /// Recomputes the cursor of the entry of `fd` per the anchor and
    /// returns where it rests.  `None` — and no movement — for an
    /// unrecognized descriptor or anchor, or a target before the start;
    /// the cursor never leaves the content, so a target past the end
    /// rests at the end.
    pub fn seek(&mut self, fd: i32, offset: i64, whence: u64) -> (r: Option<usize>)
        requires
            old(self).wf(),
        ensures
            final(self).wf(),
            match r {
                Some(p) => Some(p as int) == spec_seek_pos(
                    old(self)@,
                    fd,
                    offset as int,
                    whence,
                ),
                None => spec_seek_pos(old(self)@, fd, offset as int, whence) is None,
            },
            final(self)@ == spec_seek_table(old(self)@, fd, offset as int, whence),
            final(self).spec_next_fd() == old(self).spec_next_fd(),
    {
        let idx = self.find_fd(fd);
        match idx {
            None => {
                proof {
                    assert(final(self)@ =~= spec_seek_table(
                        old(self)@,
                        fd,
                        offset as int,
                        whence,
                    ));
                }
                None
            },
            Some(i) => {
                proof {
                    lemma_fd_index_props(self@, fd);
                    assert(self@[i as int].inv(self.next_fd));
                }
                let len = self.files[i].content.len();
                let pos = self.files[i].position;
                let raw: i128 = if whence == SEEK_SET {
                    offset as i128
                } else if whence == SEEK_CUR {
                    pos as i128 + offset as i128
                } else if whence == SEEK_END {
                    len as i128 + offset as i128
                } else {
                    -1
                };
                if whence > SEEK_END || raw < 0 {
                    proof {
                        assert(final(self)@ =~= spec_seek_table(
                            old(self)@,
                            fd,
                            offset as int,
                            whence,
                        ));
                    }
                    return None;
                }
                let new_pos: usize = if raw > len as i128 {
                    len
                } else {
                    raw as usize
                };
                let old_file = self.files.remove(i);
                let new_file = VirtualFile { position: new_pos, ..old_file };
                self.files.insert(i, new_file);
                proof {
                    let m = old(self)@;
                    let fm = m[i as int];
                    lemma_fd_index_update(
                        m,
                        i as int,
                        FileModel { position: new_pos as int, ..fm },
                        fd,
                    );
                    assert(self@ =~= spec_seek_table(m, fd, offset as int, whence));
                    assert forall|k: int| 0 <= k < self@.len() implies (#[trigger] self@[k]).inv(
                        self.next_fd,
                    ) by {
                        assert(m[k].inv(self.next_fd));
                    }
                }
                Some(new_pos)
            },
        }
    }

    /// Removes the entry of `fd`; says whether one was removed.  Every
    /// later operation on that descriptor is unrecognized.
    pub fn close(&mut self, fd: i32) -> (r: bool)
        requires
            old(self).wf(),
        ensures
            final(self).wf(),
            r == is_live(old(self)@, fd),
            final(self)@ == spec_close_table(old(self)@, fd),
            final(self).spec_next_fd() == old(self).spec_next_fd(),
    {
        let idx = self.find_fd(fd);
        match idx {
            None => {
                proof {
                    assert(final(self)@ =~= spec_close_table(old(self)@, fd));
                }
                false
            },
            Some(i) => {
                proof {
                    lemma_fd_index_props(self@, fd);
                }
                self.files.remove(i);
                proof {
                    let m = old(self)@;
                    assert(self@ =~= m.remove(i as int));
                    assert(self@ =~= spec_close_table(m, fd));
                    assert forall|k: int| 0 <= k < self@.len() implies (#[trigger] self@[k]).inv(
                        self.next_fd,
                    ) by {
                        if k < i as int {
                            assert(self@[k] == m[k]);
                            assert(m[k].inv(self.next_fd));
                        } else {
                            assert(self@[k] == m[k + 1]);
                            assert(m[k + 1].inv(self.next_fd));
                        }
                    }
                    assert forall|a: int, b: int|
                        0 <= a < b < self@.len() implies self@[a].fd != self@[b].fd by {
                        let a2 = if a < i as int {
                            a
                        } else {
                            a + 1
                        };
                        let b2 = if b < i as int {
                            b
                        } else {
                            b + 1
                        };
                        assert(self@[a] == m[a2] && self@[b] == m[b2]);
                        assert(m[a2].fd != m[b2].fd);
                    }
                }
                true
            },
        }
    }
}

/// Law: each opened descriptor is unique among the currently-live
/// descriptors of a well-formed table.
pub proof fn lemma_descriptors_unique(t: FileTable, i: int, j: int)
    requires
        t.wf(),
        0 <= i < t@.len(),
        0 <= j < t@.len(),
        i != j,
    ensures
        t@[i].fd != t@[j].fd,
{
    if i < j {
        assert(t@[i].fd != t@[j].fd);
    } else {
        assert(t@[j].fd != t@[i].fd);
    }
}

/// Law: writing bytes `data` to a live descriptor and reading the path
/// back from the start for `data.len()` bytes returns exactly `data`.
pub proof fn lemma_write_then_read_round_trip(files: Seq<FileModel>, fd: i32, data: Seq<u8>)
    requires
        fds_distinct(files),
        is_live(files, fd),
    ensures
        ({
            let after_w = spec_write_table(files, fd, data);
            let after_s = spec_seek_table(after_w, fd, 0, SEEK_SET);
            spec_read_result(after_s, fd, data.len() as int) == Some(data)
        }),
{
    let i = fd_index(files, fd);
    lemma_fd_index_props(files, fd);
    let f = files[i];
    let f_w = FileModel { content: data, position: data.len() as int, ..f };
    lemma_fd_index_update(files, i, f_w, fd);
    let after_w = spec_write_table(files, fd, data);
    assert(after_w[i] == f_w);
    let f_s = FileModel { position: 0, ..f_w };
    lemma_fd_index_update(after_w, i, f_s, fd);
    let after_s = spec_seek_table(after_w, fd, 0, SEEK_SET);
    assert(after_s[i] == f_s);
    assert(read_amount(f_s, data.len() as int) == data.len());
    assert(spec_read_result(after_s, fd, data.len() as int) == Some(
        data.subrange(0, data.len() as int),
    ));
    assert(data.subrange(0, data.len() as int) =~= data);
}

/// Law: a read past the remaining content returns only what remains —
/// no padding and no error.
pub proof fn lemma_read_beyond_remaining(
    files: Seq<FileModel>,
    next_fd: i32,
    fd: i32,
    count: int,
)
    requires
        wf_files(files, next_fd),
        is_live(files, fd),
        count >= files[fd_index(files, fd)].content.len() - files[fd_index(files, fd)].position,
    ensures
        ({
            let f = files[fd_index(files, fd)];
            spec_read_result(files, fd, count) == Some(
                f.content.subrange(f.position, f.content.len() as int),
            )
        }),
{
    let i = fd_index(files, fd);
    lemma_fd_index_props(files, fd);
    assert(files[i].inv(next_fd));
    assert(read_amount(files[i], count) == files[i].content.len() - files[i].position);
}

/// Law: writing bytes `data` under the path just opened and reading the
/// path back from the start for `data.len()` bytes returns exactly `data`.
pub proof fn lemma_path_write_then_read(
    files: Seq<FileModel>,
    next_fd: i32,
    path: Seq<char>,
    initial: Seq<u8>,
    data: Seq<u8>,
)
    requires
        wf_files(files, next_fd),
    ensures
        ({
            let opened = spec_open_table(files, next_fd, path, initial);
            let written = spec_write_table(opened, next_fd, data);
            let sought = spec_seek_table(written, next_fd, 0, SEEK_SET);
            spec_read_result(sought, next_fd, data.len() as int) == Some(data)
        }),
{
    let opened = spec_open_table(files, next_fd, path, initial);
    assert(opened.last().fd == next_fd);
    assert(fd_index(opened, next_fd) == opened.len() - 1);
    assert forall|a: int, b: int|
        0 <= a < b < opened.len() implies opened[a].fd != opened[b].fd by {
        if b == opened.len() - 1 {
            assert(files[a].inv(next_fd));
        }
    }
    lemma_write_then_read_round_trip(opened, next_fd, data);
}

/// Law: a seek to the end followed by a read of any count returns zero
/// bytes.
pub proof fn lemma_seek_end_then_read_empty(
    files: Seq<FileModel>,
    next_fd: i32,
    fd: i32,
    count: int,
)
    requires
        wf_files(files, next_fd),
        is_live(files, fd),
        count >= 0,
    ensures
        spec_seek_pos(files, fd, 0, SEEK_END) == Some(files[fd_index(files, fd)].content.len() as int),
        spec_read_result(spec_seek_table(files, fd, 0, SEEK_END), fd, count) == Some(
            Seq::<u8>::empty(),
        ),
{
    let i = fd_index(files, fd);
    lemma_fd_index_props(files, fd);
    let f = files[i];
    assert(f.inv(next_fd));
    let len = f.content.len() as int;
    let f_s = FileModel { position: len, ..f };
    lemma_fd_index_update(files, i, f_s, fd);
    let after_s = spec_seek_table(files, fd, 0, SEEK_END);
    assert(after_s[i] == f_s);
    assert(read_amount(f_s, count) == 0);
    assert(spec_read_result(after_s, fd, count) == Some(f_s.content.subrange(len, len)));
    assert(f_s.content.subrange(len, len) =~= Seq::<u8>::empty());
}

/// Law: after a close of `fd`, every operation treats `fd` as
/// unrecognized: lookups fail, reads and seeks answer nothing, and no
/// operation moves the table.
pub proof fn lemma_close_then_unrecognized(files: Seq<FileModel>, fd: i32)
    requires
        fds_distinct(files),
    ensures
        ({
            let after = spec_close_table(files, fd);
            &&& !is_live(after, fd)
            &&& forall|count: int| spec_read_result(after, fd, count) == None::<Seq<u8>>
            &&& forall|count: int| spec_read_table(after, fd, count) == after
            &&& forall|data: Seq<u8>| spec_write_table(after, fd, data) == after
            &&& forall|offset: int, whence: u64|
                spec_seek_pos(after, fd, offset, whence) == None::<int>
            &&& forall|offset: int, whence: u64|
                spec_seek_table(after, fd, offset, whence) == after
            &&& spec_close_table(after, fd) == after
        }),
{
    let i = fd_index(files, fd);
    lemma_fd_index_props(files, fd);
    if i >= 0 {
        lemma_fd_index_remove(files, i, fd);
    }
    let after = spec_close_table(files, fd);
    assert(fd_index(after, fd) == -1);
}

} // verus!
