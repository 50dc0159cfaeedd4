//! File access registry: maps each filename to an explicit
//! reader/writer exclusion state and hands out scoped access handles.
//!
//! Acquisition never blocks: a busy file is reported at once with a
//! typed error, because the protocol has no notion of queuing.  Entries
//! are created lazily on first reference and retained for the life of
//! the registry.
use vstd::prelude::*;

verus! {

/// Why an acquisition failed.
#[derive(Clone, Copy, Debug, PartialEq, Eq, Structural)]
pub enum Error {
    /// A previous writer abandoned its handle abnormally; the file's
    /// state may be inconsistent, which is reported, never ignored.
    Poisoned,
    /// The file is already write locked, so a reader is refused.
    WriteLocked,
    /// The file is already read or write locked, so a writer is
    /// refused.
    ReadOrWriteLocked,
}

/// The lock state of one filename.
#[derive(Clone, Copy, Debug, PartialEq, Eq, Structural)]
pub enum LockState {
    /// No handle is out.
    Unlocked,
    /// This many read handles are out.
    Readers(usize),
    /// One write handle is out.
    Writer,
    /// A writer abandoned its handle abnormally.
    Poisoned,
}

/// One registered filename with its lock state.
struct Entry {
    filename: String,
    state: LockState,
}

/// A borrowed read handle on one filename, held for a session's
/// lifetime and given back to the registry when the session ends.
pub struct ReadFile {
    filename: String,
}

impl View for ReadFile {
    type V = Seq<char>;

    closed spec fn view(&self) -> Seq<char> {
        self.filename@
    }
}

impl ReadFile {
    /// The filename the handle gives read access to.
    pub fn filename(&self) -> (r: &String)
        ensures
            r@ == self@,
    {
        &self.filename
    }
}

/// A borrowed write handle on one filename, held for a session's
/// lifetime and given back to the registry when the session ends.
pub struct WriteFile {
    filename: String,
}

impl View for WriteFile {
    type V = Seq<char>;

    closed spec fn view(&self) -> Seq<char> {
        self.filename@
    }
}

impl WriteFile {
    /// The filename the handle gives write access to.
    pub fn filename(&self) -> (r: &String)
        ensures
            r@ == self@,
    {
        &self.filename
    }
}

/// The first entry carrying the given filename, or -1 when none does.
spec fn idx_of(entries: Seq<Entry>, name: Seq<char>) -> int
    decreases entries.len(),
{
    if entries.len() == 0 {
        -1
    } else if entries[0].filename@ == name {
        0
    } else {
        let r = idx_of(entries.drop_first(), name);
        if r == -1 {
            -1
        } else {
            r + 1
        }
    }
}

/// `idx_of` finds the first entry with the name: the entry there
/// carries it and none before it does; -1 means no entry carries it.
proof fn lemma_idx_of(entries: Seq<Entry>, name: Seq<char>)
    ensures
        idx_of(entries, name) == -1 ==> forall|j: int|
            0 <= j < entries.len() ==> entries[j].filename@ != name,
        idx_of(entries, name) != -1 ==> {
            let i = idx_of(entries, name);
            &&& 0 <= i < entries.len()
            &&& entries[i].filename@ == name
            &&& forall|j: int| 0 <= j < i ==> entries[j].filename@ != name
        },
    decreases entries.len(),
{
    if entries.len() == 0 {
    } else if entries[0].filename@ == name {
    } else {
        let t = entries.drop_first();
        lemma_idx_of(t, name);
        if idx_of(t, name) == -1 {
            assert forall|j: int| 0 <= j < entries.len() implies entries[j].filename@ != name by {
                if j > 0 {
                    assert(entries[j] == t[j - 1]);
                }
            }
        } else {
            let i = idx_of(t, name);
            assert(entries[i + 1] == t[i]);
            assert forall|j: int| 0 <= j < i + 1 implies entries[j].filename@ != name by {
                if j > 0 {
                    assert(entries[j] == t[j - 1]);
                }
            }
        }
    }
}

/// A position that carries the name with none before it is what
/// `idx_of` returns.
proof fn lemma_idx_of_at(entries: Seq<Entry>, name: Seq<char>, i: int)
    requires
        0 <= i < entries.len(),
        entries[i].filename@ == name,
        forall|j: int| 0 <= j < i ==> entries[j].filename@ != name,
    ensures
        idx_of(entries, name) == i,
    decreases entries.len(),
{
    if i == 0 {
    } else {
        let t = entries.drop_first();
        assert(t[i - 1] == entries[i]);
        assert forall|j: int| 0 <= j < i - 1 implies t[j].filename@ != name by {
            assert(t[j] == entries[j + 1]);
        }
        lemma_idx_of_at(t, name, i - 1);
    }
}

/// Replacing an entry's state in place leaves every lookup of another
/// name where it was.
proof fn lemma_idx_of_update(entries: Seq<Entry>, i: int, e: Entry, n: Seq<char>)
    requires
        0 <= i < entries.len(),
        e.filename@ == entries[i].filename@,
        n != e.filename@,
    ensures
        idx_of(entries.update(i, e), n) == idx_of(entries, n),
    decreases entries.len(),
{
    let u = entries.update(i, e);
    if entries.len() == 0 {
    } else if i == 0 {
        assert(u.drop_first() =~= entries.drop_first());
    } else {
        assert(u[0] == entries[0]);
        assert(u.drop_first() =~= entries.drop_first().update(i - 1, e));
        assert(entries.drop_first()[i - 1] == entries[i]);
        lemma_idx_of_update(entries.drop_first(), i - 1, e, n);
    }
}

/// Appending an entry leaves every lookup of a present or different
/// name where it was, and makes the new name found at the end.
proof fn lemma_idx_of_push(entries: Seq<Entry>, e: Entry, n: Seq<char>)
    ensures
        idx_of(entries, n) != -1 ==> idx_of(entries.push(e), n) == idx_of(entries, n),
        idx_of(entries, n) == -1 && e.filename@ == n ==> idx_of(entries.push(e), n)
            == entries.len() as int,
        idx_of(entries, n) == -1 && e.filename@ != n ==> idx_of(entries.push(e), n) == -1,
    decreases entries.len(),
{
    let u = entries.push(e);
    if entries.len() == 0 {
        assert(u[0] == e);
        assert(u.drop_first() =~= Seq::<Entry>::empty());
        assert(idx_of(Seq::<Entry>::empty(), n) == -1);
        if e.filename@ == n {
            assert(idx_of(u, n) == 0);
        } else {
            assert(idx_of(u, n) == -1);
        }
    } else {
        let t = entries.drop_first();
        assert(u[0] == entries[0]);
        assert(u.drop_first() =~= t.push(e));
        lemma_idx_of(t, n);
        lemma_idx_of_push(t, e, n);
        assert(idx_of(u.drop_first(), n) == idx_of(t.push(e), n));
        if entries[0].filename@ == n {
            assert(idx_of(u, n) == 0);
            assert(idx_of(entries, n) == 0);
        } else if idx_of(t, n) != -1 {
            assert(idx_of(u.drop_first(), n) == idx_of(t, n));
            assert(idx_of(u, n) == idx_of(t, n) + 1);
            assert(idx_of(entries, n) == idx_of(t, n) + 1);
        } else if e.filename@ == n {
            assert(idx_of(entries, n) == -1);
            assert(idx_of(u.drop_first(), n) == t.len() as int);
            assert(idx_of(u, n) == t.len() + 1);
            assert(t.len() + 1 == entries.len());
        } else {
            assert(idx_of(entries, n) == -1);
            assert(idx_of(u.drop_first(), n) == -1);
            assert(idx_of(u, n) == -1);
        }
    }
}

/// Serializes read and write access to files by name.  Lookup is by
/// the filename exactly as the request carried it; names are resolved
/// against a fixed root directory by the caller that opens the file.
pub struct FileRegistry {
    root: String,
    entries: Vec<Entry>,
}

impl FileRegistry {
    /// The lock state recorded for a filename; a name never referenced
    /// is unlocked.
    pub closed spec fn lock_of(&self, name: Seq<char>) -> LockState {
        let i = idx_of(self.entries@, name);
        if i == -1 {
            LockState::Unlocked
        } else {
            self.entries@[i].state
        }
    }

    /// The root directory names are resolved against.
    pub closed spec fn root_view(&self) -> Seq<char> {
        self.root@
    }

    /// An empty registry rooted at the current directory: every name
    /// starts unlocked.
    pub fn new() -> (r: FileRegistry)
        ensures
            forall|n: Seq<char>| r.lock_of(n) == LockState::Unlocked,
            r.root_view() == "."@,
    {
        let root = ".".to_owned();
        let entries: Vec<Entry> = Vec::new();
        FileRegistry { root, entries }
    }

    /// The root directory names are resolved against.
    pub fn root(&self) -> (r: &String)
        ensures
            r@ == self.root_view(),
    {
        &self.root
    }

    /// The index of the entry for a filename, creating an unlocked one
    /// on first reference.  No lock state changes.
    fn file_entry(&mut self, filename: &String) -> (i: usize)
        ensures
            i < final(self).entries@.len(),
            final(self).entries@[i as int].filename@ == filename@,
            idx_of(final(self).entries@, filename@) == i,
            forall|n: Seq<char>| final(self).lock_of(n) == old(self).lock_of(n),
            final(self).root_view() == old(self).root_view(),
            forall|j: int|
                0 <= j < old(self).entries@.len() ==> final(self).entries@[j] == old(
                    self,
                ).entries@[j],
    {
        let n = self.entries.len();
        let mut k: usize = 0;
        while k < n
            invariant
                n == self.entries@.len(),
                k <= n,
                forall|j: int| 0 <= j < k ==> self.entries@[j].filename@ != filename@,
        decreases n - k,
        {
            if self.entries[k].filename.eq(filename) {
                proof {
                    lemma_idx_of_at(self.entries@, filename@, k as int);
                }
                return k;
            }
            k = k + 1;
        }
        proof {
            lemma_idx_of(self.entries@, filename@);
            if idx_of(self.entries@, filename@) != -1 {
                let i = idx_of(self.entries@, filename@);
                assert(self.entries@[i].filename@ == filename@);
            }
        }
        let entry = Entry { filename: filename.clone(), state: LockState::Unlocked };
        let ghost before = self.entries@;
        let ghost pushed = entry;
        self.entries.push(entry);
        proof {
            assert(self.entries@ == before.push(pushed));
            assert forall|m: Seq<char>| self.lock_of(m) == old(self).lock_of(m) by {
                lemma_idx_of_push(before, pushed, m);
                if idx_of(before, m) != -1 {
                    lemma_idx_of(before, m);
                    assert(self.entries@[idx_of(before, m)] == before[idx_of(before, m)]);
                }
            }
            lemma_idx_of_push(before, pushed, filename@);
        }
        n
    }

    /// Acquires shared read access: succeeds exactly when no writer
    /// holds or has poisoned the lock and the reader count can still
    /// grow; on success the reader count grows by one.  Never blocks,
    /// and never touches any other name.
    pub fn read_file(&mut self, filename: &String) -> (r: Result<ReadFile, Error>)
        ensures
            match old(self).lock_of(filename@) {
                LockState::Unlocked => r is Ok && final(self).lock_of(filename@)
                    == LockState::Readers(1),
                LockState::Readers(k) => if k < usize::MAX {
                    r is Ok && final(self).lock_of(filename@) == LockState::Readers((k + 1) as usize)
                } else {
                    r == Err::<ReadFile, Error>(Error::ReadOrWriteLocked) && final(self).lock_of(
                        filename@,
                    ) == old(self).lock_of(filename@)
                },
                LockState::Writer => r == Err::<ReadFile, Error>(Error::WriteLocked) && final(self).lock_of(filename@) == old(self).lock_of(filename@),
                LockState::Poisoned => r == Err::<ReadFile, Error>(Error::Poisoned) && final(self).lock_of(filename@) == old(self).lock_of(filename@),
            },
            r is Ok ==> r->Ok_0@ == filename@,
            forall|n: Seq<char>|
                n != filename@ ==> final(self).lock_of(n) == old(self).lock_of(n),
            final(self).root_view() == old(self).root_view(),
    {
        let i = self.file_entry(filename);
        let ghost mid = self.entries@;
        let entry = vstd::std_specs::vec::vec_index_mut(&mut self.entries, i);
        match entry.state {
            LockState::Poisoned => {
                proof {
                    assert(self.entries@ =~= mid);
                }
                Err(Error::Poisoned)
            },
            LockState::Writer => {
                proof {
                    assert(self.entries@ =~= mid);
                }
                Err(Error::WriteLocked)
            },
            LockState::Unlocked => {
                entry.state = LockState::Readers(1);
                proof {
                    Self::lemma_state_update(mid, i as int, self.entries@, filename@);
                }
                Ok(ReadFile { filename: filename.clone() })
            },
            LockState::Readers(k) => {
                if k < usize::MAX {
                    entry.state = LockState::Readers(k + 1);
                    proof {
                        Self::lemma_state_update(mid, i as int, self.entries@, filename@);
                    }
                    Ok(ReadFile { filename: filename.clone() })
                } else {
                    proof {
                        assert(self.entries@ =~= mid);
                    }
                    Err(Error::ReadOrWriteLocked)
                }
            },
        }
    }

    /// Acquires exclusive write access: succeeds exactly when the name
    /// is unlocked; on success the name is write locked.  Never
    /// blocks, and never touches any other name.
    pub fn write_file(&mut self, filename: &String) -> (r: Result<WriteFile, Error>)
        ensures
            match old(self).lock_of(filename@) {
                LockState::Unlocked => r is Ok && final(self).lock_of(filename@)
                    == LockState::Writer,
                LockState::Readers(k) => r == Err::<WriteFile, Error>(Error::ReadOrWriteLocked)
                    && final(self).lock_of(filename@) == old(self).lock_of(filename@),
                LockState::Writer => r == Err::<WriteFile, Error>(Error::ReadOrWriteLocked)
                    && final(self).lock_of(filename@) == old(self).lock_of(filename@),
                LockState::Poisoned => r == Err::<WriteFile, Error>(Error::Poisoned) && final(self).lock_of(filename@) == old(self).lock_of(filename@),
            },
            r is Ok ==> r->Ok_0@ == filename@,
            forall|n: Seq<char>|
                n != filename@ ==> final(self).lock_of(n) == old(self).lock_of(n),
            final(self).root_view() == old(self).root_view(),
    {
        let i = self.file_entry(filename);
        let ghost mid = self.entries@;
        let entry = vstd::std_specs::vec::vec_index_mut(&mut self.entries, i);
        match entry.state {
            LockState::Poisoned => {
                proof {
                    assert(self.entries@ =~= mid);
                }
                Err(Error::Poisoned)
            },
            LockState::Writer => {
                proof {
                    assert(self.entries@ =~= mid);
                }
                Err(Error::ReadOrWriteLocked)
            },
            LockState::Readers(k) => {
                proof {
                    assert(self.entries@ =~= mid);
                }
                Err(Error::ReadOrWriteLocked)
            },
            LockState::Unlocked => {
                entry.state = LockState::Writer;
                proof {
                    Self::lemma_state_update(mid, i as int, self.entries@, filename@);
                }
                Ok(WriteFile { filename: filename.clone() })
            },
        }
    }

    /// Gives a read handle back: one reader fewer, unlocked when it
    /// was the last; a handle whose name is not read locked changes
    /// nothing.  Never touches any other name.
    pub fn release_read(&mut self, handle: ReadFile)
        ensures
            final(self).lock_of(handle@) == match old(self).lock_of(handle@) {
                LockState::Readers(k) => if k > 1 {
                    LockState::Readers((k - 1) as usize)
                } else {
                    LockState::Unlocked
                },
                other => other,
            },
            forall|n: Seq<char>| n != handle@ ==> final(self).lock_of(n) == old(self).lock_of(n),
            final(self).root_view() == old(self).root_view(),
    {
        let i = self.file_entry(&handle.filename);
        let ghost mid = self.entries@;
        let entry = vstd::std_specs::vec::vec_index_mut(&mut self.entries, i);
        if let LockState::Readers(k) = entry.state {
            entry.state = if k > 1 {
                LockState::Readers(k - 1)
            } else {
                LockState::Unlocked
            };
            proof {
                Self::lemma_state_update(mid, i as int, self.entries@, handle@);
            }
        } else {
            proof {
                assert(self.entries@ =~= mid);
            }
        }
    }

    /// Gives a write handle back in good order: the name is unlocked
    /// again; a handle whose name is not write locked changes nothing.
    /// Never touches any other name.
    pub fn release_write(&mut self, handle: WriteFile)
        ensures
            final(self).lock_of(handle@) == match old(self).lock_of(handle@) {
                LockState::Writer => LockState::Unlocked,
                other => other,
            },
            forall|n: Seq<char>| n != handle@ ==> final(self).lock_of(n) == old(self).lock_of(n),
            final(self).root_view() == old(self).root_view(),
    {
        let i = self.file_entry(&handle.filename);
        let ghost mid = self.entries@;
        let entry = vstd::std_specs::vec::vec_index_mut(&mut self.entries, i);
        if let LockState::Writer = entry.state {
            entry.state = LockState::Unlocked;
            proof {
                Self::lemma_state_update(mid, i as int, self.entries@, handle@);
            }
        } else {
            proof {
                assert(self.entries@ =~= mid);
            }
        }
    }

    /// Reports that a writer ended abnormally while holding its
    /// handle: the name is poisoned and later acquisitions are refused,
    /// so a possibly inconsistent file is never handed out silently.
    pub fn poison_write(&mut self, handle: WriteFile)
        ensures
            final(self).lock_of(handle@) == match old(self).lock_of(handle@) {
                LockState::Writer => LockState::Poisoned,
                other => other,
            },
            forall|n: Seq<char>| n != handle@ ==> final(self).lock_of(n) == old(self).lock_of(n),
            final(self).root_view() == old(self).root_view(),
    {
        let i = self.file_entry(&handle.filename);
        let ghost mid = self.entries@;
        let entry = vstd::std_specs::vec::vec_index_mut(&mut self.entries, i);
        if let LockState::Writer = entry.state {
            entry.state = LockState::Poisoned;
            proof {
                Self::lemma_state_update(mid, i as int, self.entries@, handle@);
            }
        } else {
            proof {
                assert(self.entries@ =~= mid);
            }
        }
    }

    /// Replacing the state of the entry `name` resolves to moves that
    /// name's lock and no other.
    proof fn lemma_state_update(before: Seq<Entry>, i: int, after: Seq<Entry>, name: Seq<char>)
        requires
            0 <= i < before.len(),
            idx_of(before, name) == i,
            after.len() == before.len(),
            after[i].filename@ == before[i].filename@,
            forall|j: int| 0 <= j < before.len() && j != i ==> after[j] == before[j],
        ensures
            idx_of(after, name) == i,
            forall|n: Seq<char>|
                n != name ==> idx_of(after, n) == idx_of(before, n) && (idx_of(before, n) != -1
                    ==> after[idx_of(before, n)] == before[idx_of(before, n)]),
    {
        lemma_idx_of(before, name);
        assert(after =~= before.update(i, after[i]));
        assert forall|j: int| 0 <= j < i implies after[j].filename@ != name by {
            assert(after[j] == before[j]);
        }
        lemma_idx_of_at(after, name, i);
        assert forall|n: Seq<char>|
            n != name implies idx_of(after, n) == idx_of(before, n) && (idx_of(before, n) != -1
                ==> after[idx_of(before, n)] == before[idx_of(before, n)]) by {
            lemma_idx_of_update(before, i, after[i], n);
            lemma_idx_of(before, n);
            if idx_of(before, n) != -1 {
                assert(before[idx_of(before, n)].filename@ == n);
                assert(idx_of(before, n) != i);
            }
        }
    }
}

} // verus!
