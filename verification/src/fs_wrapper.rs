//! An in-memory file system: named byte buffers, and files that read and
//! write them through a position.

use vstd::prelude::*;
use vstd::slice::slice_subrange;
use crate::text::str_eq;

verus! {

/// Why an operation of the in-memory file system failed.
#[derive(Clone, Copy, Debug, PartialEq, Eq, Structural)]
pub enum FsError {
    /// A file of that name exists already.
    AlreadyExists,
    /// No file of that name exists.
    NotFound,
}

/// The smaller of two lengths.
pub open spec fn min_len(a: int, b: int) -> int {
    if a < b {
        a
    } else {
        b
    }
}

/// How many bytes a read of a buffer of `room` bytes takes from `contents`
/// at `position`.
pub open spec fn read_len(contents: Seq<u8>, position: int, room: int) -> int {
    min_len(room, contents.len() - min_len(position, contents.len() as int))
}

/// The buffer after a read: the bytes at `position` first, and behind them
/// what the buffer held before.
pub open spec fn buffer_after_read(contents: Seq<u8>, position: int, buffer: Seq<u8>) -> Seq<u8> {
    let start = min_len(position, contents.len() as int);
    let count = read_len(contents, position, buffer.len() as int);
    contents.subrange(start, start + count) + buffer.subrange(count, buffer.len() as int)
}

/// How many bytes of `buffer` a write in place puts into `contents` at
/// `position`: as many as fit before the end.
pub open spec fn overwrite_len(contents: Seq<u8>, position: int, buffer: Seq<u8>) -> int {
    min_len(buffer.len() as int, contents.len() - min_len(position, contents.len() as int))
}

/// The contents after a write in place: the length stays, and the bytes
/// that fit replace those at `position`.
pub open spec fn overwritten(contents: Seq<u8>, position: int, buffer: Seq<u8>) -> Seq<u8> {
    let start = min_len(position, contents.len() as int);
    let count = overwrite_len(contents, position, buffer);
    contents.subrange(0, start) + buffer.subrange(0, count) + contents.subrange(
        start + count,
        contents.len() as int,
    )
}

/// The contents after a write that may grow them: `count` bytes of the
/// buffer replace those at `position` and extend the contents where they
/// reach beyond the end.
pub open spec fn extended(contents: Seq<u8>, position: int, buffer: Seq<u8>, count: int) -> Seq<
    u8,
> {
    contents.subrange(0, position) + buffer.subrange(0, count) + contents.subrange(
        min_len(position + count, contents.len() as int),
        contents.len() as int,
    )
}

/// Something that can be read from and written to. The interface promises
/// nothing by itself: each kind of file says what its operations do.
pub trait ReadWrite {
    /// How an operation can fail.
    type Error;

    /// Writes bytes of `buf` and returns how many were written.
    fn write(&mut self, buf: &[u8]) -> Result<usize, Self::Error>;

    /// Makes sure that what was written has reached its destination.
    fn flush(&mut self) -> Result<(), Self::Error>;

    /// Reads bytes into the front of `buf` and returns how many were read.
    fn read(&mut self, buf: &mut [u8]) -> Result<usize, Self::Error>;
}

/// The bytes of one file of the in-memory file system.
#[derive(Debug)]
pub struct FakeFileData(Vec<u8>);

impl View for FakeFileData {
    type V = Seq<u8>;

    closed spec fn view(&self) -> Seq<u8> {
        self.0@
    }
}

/// A file that reads and writes bytes it has borrowed. It never changes
/// their number: a write replaces bytes from the position on and stops at
/// the end.
pub struct BorrowedFakeFile<'a> {
    /// The bytes that the file reads and writes.
    pub inner: &'a mut Vec<u8>,
    /// The position that the next read or write starts at.
    pub pos: usize,
}

impl FakeFileData {
    /// An empty file.
    pub fn new() -> (data: Self)
        ensures
            data@ == Seq::<u8>::empty(),
    {
        FakeFileData(Vec::new())
    }

    /// A file over these bytes, positioned at their start. What is written
    /// through the file is what these bytes are once the file is gone.
    pub fn as_fake_file<'a>(&'a mut self) -> (file: FakeFile<'a>)
        ensures
            file matches FakeFile::Borrowed(borrowed) && borrowed.contents() == old(self)@
                && borrowed.position() == 0 && final(self)@ == (*final(borrowed.inner))@,
    {
        FakeFile::Borrowed(BorrowedFakeFile { inner: &mut self.0, pos: 0 })
    }
}

impl<'a> BorrowedFakeFile<'a> {
    /// The bytes of the file.
    pub open spec fn contents(&self) -> Seq<u8> {
        self.inner@
    }

    /// The position that the next read or write starts at.
    pub open spec fn position(&self) -> int {
        self.pos as int
    }

    /// The bytes from the position to the end; none where the position is
    /// beyond the end.
    pub fn remaining_slice(&self) -> (remaining: &[u8])
        ensures
            remaining@ == self.contents().subrange(
                min_len(self.position(), self.contents().len() as int),
                self.contents().len() as int,
            ),
    {
        let length = self.inner.len();
        let start = if self.pos < length {
            self.pos
        } else {
            length
        };
        slice_subrange(self.inner.as_slice(), start, length)
    }
}

/// Copies the first `count` bytes of `source` to the front of `target`.
fn copy_to_front(target: &mut [u8], source: &[u8], count: usize)
    requires
        count <= old(target)@.len(),
        count <= source@.len(),
    ensures
        final(target)@ == source@.subrange(0, count as int) + old(target)@.subrange(
            count as int,
            old(target)@.len() as int,
        ),
{
    let mut k: usize = 0;
    while k < count
        invariant
            k <= count,
            count <= source@.len(),
            target@.len() == old(target)@.len(),
            count <= target@.len(),
            forall|j: int| 0 <= j < k ==> target@[j] == source@[j],
            forall|j: int| k <= j < target@.len() ==> target@[j] == old(target)@[j],
        decreases count - k,
    {
        target[k] = source[k];
        k += 1;
    }
    assert(target@ =~= source@.subrange(0, count as int) + old(target)@.subrange(
        count as int,
        old(target)@.len() as int,
    ));
}

impl<'a> ReadWrite for BorrowedFakeFile<'a> {
    type Error = FsError;

    fn write(&mut self, buf: &[u8]) -> (written: Result<usize, FsError>)
        ensures
            written == Ok::<usize, FsError>(
                overwrite_len(old(self).contents(), old(self).position(), buf@) as usize,
            ),
            final(self).contents() == overwritten(old(self).contents(), old(self).position(), buf@),
            final(self).position() == old(self).position() + overwrite_len(
                old(self).contents(),
                old(self).position(),
                buf@,
            ),
            *final(final(self).inner) == *final(old(self).inner),
    {
        let length = self.inner.len();
        let start = if self.pos < length {
            self.pos
        } else {
            length
        };
        let room = length - start;
        let amount = if buf.len() < room {
            buf.len()
        } else {
            room
        };
        let ghost before = self.inner@;
        let mut k: usize = 0;
        while k < amount
            invariant
                k <= amount,
                amount <= buf@.len(),
                start + amount <= length,
                self.inner@.len() == length,
                before.len() == length,
                self.pos == old(self).pos,
                *final(self.inner) == *final(old(self).inner),
                forall|j: int| 0 <= j < start ==> self.inner@[j] == before[j],
                forall|j: int| start <= j < start + k ==> self.inner@[j] == buf@[j - start],
                forall|j: int| start + k <= j < length ==> self.inner@[j] == before[j],
            decreases amount - k,
        {
            self.inner[start + k] = buf[k];
            k += 1;
        }
        self.pos += amount;
        assert(self.inner@ =~= overwritten(before, old(self).pos as int, buf@));
        Ok(amount)
    }

    fn flush(&mut self) -> (flushed: Result<(), FsError>)
        ensures
            flushed == Ok::<(), FsError>(()),
            *final(self) == *old(self),
    {
        Ok(())
    }

    fn read(&mut self, buf: &mut [u8]) -> (read: Result<usize, FsError>)
        ensures
            read == Ok::<usize, FsError>(
                read_len(old(self).contents(), old(self).position(), old(buf)@.len() as int) as usize,
            ),
            final(buf)@ == buffer_after_read(old(self).contents(), old(self).position(), old(buf)@),
            final(self).contents() == old(self).contents(),
            final(self).position() == old(self).position() + read_len(
                old(self).contents(),
                old(self).position(),
                old(buf)@.len() as int,
            ),
            *final(final(self).inner) == *final(old(self).inner),
    {
        let remaining = self.remaining_slice();
        let count = if buf.len() < remaining.len() {
            buf.len()
        } else {
            remaining.len()
        };
        assert(self.pos + count <= usize::MAX) by {
            assert(remaining@.len() == self.inner.len() - min_len(
                self.pos as int,
                self.inner.len() as int,
            ));
        }
        copy_to_front(buf, remaining, count);
        self.pos += count;
        assert(buf@ =~= buffer_after_read(old(self).contents(), old(self).position(), old(buf)@));
        Ok(count)
    }
}

/// A file of either kind.
pub enum FakeFile<'a> {
    /// A file that owns its bytes.
    Owned(OwnedFakeFile),
    /// A file over bytes of the file system.
    Borrowed(BorrowedFakeFile<'a>),
}

/// A file that owns its bytes and grows as it is written, as a cursor over
/// a vector does. Its position is never beyond its end.
pub struct OwnedFakeFile {
    data: Vec<u8>,
    pos: usize,
}

impl OwnedFakeFile {
    #[verifier::type_invariant]
    spec fn position_within(self) -> bool {
        self.pos <= self.data@.len()
    }

    /// An empty file, positioned at its start.
    pub fn new() -> (file: Self)
        ensures
            file.contents() == Seq::<u8>::empty(),
            file.position() == 0,
    {
        OwnedFakeFile { data: Vec::new(), pos: 0 }
    }


    /// The bytes of the file.
    pub closed spec fn contents(&self) -> Seq<u8> {
        self.data@
    }

    /// The position that the next read or write starts at.
    pub closed spec fn position(&self) -> int {
        self.pos as int
    }
}

impl ReadWrite for OwnedFakeFile {
    type Error = FsError;

    fn write(&mut self, buf: &[u8]) -> (written: Result<usize, FsError>)
        ensures
            written == Ok::<usize, FsError>(
                min_len(buf@.len() as int, usize::MAX - old(self).position()) as usize,
            ),
            final(self).contents() == extended(
                old(self).contents(),
                old(self).position(),
                buf@,
                min_len(buf@.len() as int, usize::MAX - old(self).position()),
            ),
            final(self).position() == old(self).position() + min_len(
                buf@.len() as int,
                usize::MAX - old(self).position(),
            ),
    {
        proof {
            use_type_invariant(&*self);
        }
        let start = self.pos;
        let room = usize::MAX - start;
        let amount = if buf.len() < room {
            buf.len()
        } else {
            room
        };
        let ghost before = self.data@;
        let mut data = self.data.clone();
        let mut k: usize = 0;
        while k < amount
            invariant
                k <= amount,
                amount <= buf@.len(),
                start + amount <= usize::MAX,
                start <= before.len(),
                data@.len() == if start + k < before.len() {
                    before.len() as int
                } else {
                    start + k
                },
                forall|j: int| 0 <= j < start ==> data@[j] == before[j],
                forall|j: int| start <= j < start + k ==> data@[j] == buf@[j - start],
                forall|j: int| start + k <= j < before.len() ==> data@[j] == before[j],
            decreases amount - k,
        {
            if start + k < data.len() {
                data[start + k] = buf[k];
            } else {
                data.push(buf[k]);
            }
            k += 1;
        }
        assert(data@ =~= extended(before, start as int, buf@, amount as int));
        *self = OwnedFakeFile { data, pos: start + amount };
        Ok(amount)
    }

    fn flush(&mut self) -> (flushed: Result<(), FsError>)
        ensures
            flushed == Ok::<(), FsError>(()),
            *final(self) == *old(self),
    {
        Ok(())
    }

    fn read(&mut self, buf: &mut [u8]) -> (read: Result<usize, FsError>)
        ensures
            read == Ok::<usize, FsError>(
                read_len(old(self).contents(), old(self).position(), old(buf)@.len() as int) as usize,
            ),
            final(buf)@ == buffer_after_read(old(self).contents(), old(self).position(), old(buf)@),
            final(self).contents() == old(self).contents(),
            final(self).position() == old(self).position() + read_len(
                old(self).contents(),
                old(self).position(),
                old(buf)@.len() as int,
            ),
    {
        proof {
            use_type_invariant(&*self);
        }
        let length = self.data.len();
        let remaining = slice_subrange(self.data.as_slice(), self.pos, length);
        let count = if buf.len() < remaining.len() {
            buf.len()
        } else {
            remaining.len()
        };
        copy_to_front(buf, remaining, count);
        self.pos = self.pos + count;
        assert(buf@ =~= buffer_after_read(old(self).contents(), old(self).position(), old(buf)@));
        Ok(count)
    }
}

impl<'a> FakeFile<'a> {
    /// The bytes of the file.
    pub open spec fn contents(&self) -> Seq<u8> {
        match self {
            FakeFile::Owned(file) => file.contents(),
            FakeFile::Borrowed(file) => file.contents(),
        }
    }

    /// The position that the next read or write starts at.
    pub open spec fn position(&self) -> int {
        match self {
            FakeFile::Owned(file) => file.position(),
            FakeFile::Borrowed(file) => file.position(),
        }
    }
}

impl<'a> ReadWrite for FakeFile<'a> {
    type Error = FsError;

    fn write(&mut self, buf: &[u8]) -> (written: Result<usize, FsError>)
        ensures
            match *old(self) {
                FakeFile::Owned(before) => {
                    let count = min_len(buf@.len() as int, usize::MAX - before.position());
                    &&& written == Ok::<usize, FsError>(count as usize)
                    &&& *final(self) is Owned
                    &&& final(self).contents() == extended(
                        before.contents(),
                        before.position(),
                        buf@,
                        count,
                    )
                    &&& final(self).position() == before.position() + count
                },
                FakeFile::Borrowed(before) => {
                    let count = overwrite_len(before.contents(), before.position(), buf@);
                    &&& written == Ok::<usize, FsError>(count as usize)
                    &&& *final(self) matches FakeFile::Borrowed(after)
                    &&& after.contents() == overwritten(before.contents(), before.position(), buf@)
                    &&& after.position() == before.position() + count
                    &&& *final(after.inner) == *final(before.inner)
                },
            },
    {
        match self {
            FakeFile::Owned(file) => file.write(buf),
            FakeFile::Borrowed(file) => file.write(buf),
        }
    }

    fn flush(&mut self) -> (flushed: Result<(), FsError>)
        ensures
            flushed == Ok::<(), FsError>(()),
            *final(self) == *old(self),
    {
        match self {
            FakeFile::Owned(file) => file.flush(),
            FakeFile::Borrowed(file) => file.flush(),
        }
    }

    fn read(&mut self, buf: &mut [u8]) -> (read: Result<usize, FsError>)
        ensures
            read == Ok::<usize, FsError>(
                read_len(old(self).contents(), old(self).position(), old(buf)@.len() as int) as usize,
            ),
            final(buf)@ == buffer_after_read(old(self).contents(), old(self).position(), old(buf)@),
            final(self).contents() == old(self).contents(),
            final(self).position() == old(self).position() + read_len(
                old(self).contents(),
                old(self).position(),
                old(buf)@.len() as int,
            ),
            match *old(self) {
                FakeFile::Owned(_) => *final(self) is Owned,
                FakeFile::Borrowed(before) => *final(self) matches FakeFile::Borrowed(after)
                    && *final(after.inner) == *final(before.inner),
            },
    {
        match self {
            FakeFile::Owned(file) => file.read(buf),
            FakeFile::Borrowed(file) => file.read(buf),
        }
    }
}

/// A file system: files are created, opened by name, and made up
/// temporarily. The interface promises nothing by itself: each file system
/// says what its operations do.
pub trait FileSystemWrapper<'a> {
    /// The files of this file system.
    type FileType: ReadWrite;

    /// How an operation can fail.
    type Error;

    /// Creates a file that does not exist yet.
    fn create(&'a mut self, path: &str) -> Result<Self::FileType, Self::Error>;

    /// Opens a file that exists.
    fn open(&'a mut self, path: &str) -> Result<Self::FileType, Self::Error>;

    /// Makes a file that has no name and is gone with its handle.
    fn tempfile(&'a mut self) -> Result<Self::FileType, Self::Error>;
}

/// A file of the in-memory file system under its name.
pub struct FakeEntry {
    name: String,
    data: FakeFileData,
}

/// The files that a list of entries stands for, by name.
pub closed spec fn entries_map(entries: Seq<FakeEntry>) -> Map<Seq<char>, Seq<u8>>
    decreases entries.len(),
{
    if entries.len() == 0 {
        Map::empty()
    } else {
        entries_map(entries.drop_last()).insert(entries.last().name@, entries.last().data@)
    }
}

/// Whether no entry behind the position `i` has the given name.
pub closed spec fn last_of_name(entries: Seq<FakeEntry>, i: int, name: Seq<char>) -> bool {
    forall|j: int| i < j < entries.len() ==> (#[trigger] entries[j]).name@ != name
}

/// A name is in the map exactly when an entry has it.
proof fn lemma_entries_map_names(entries: Seq<FakeEntry>, name: Seq<char>)
    ensures
        entries_map(entries).contains_key(name) <==> exists|i: int|
            0 <= i < entries.len() && (#[trigger] entries[i]).name@ == name,
    decreases entries.len(),
{
    if entries.len() > 0 {
        lemma_entries_map_names(entries.drop_last(), name);
        if entries_map(entries).contains_key(name) {
            if entries.last().name@ == name {
                assert(entries[entries.len() - 1].name@ == name);
            } else {
                let i = choose|i: int|
                    0 <= i < entries.drop_last().len() && (#[trigger] entries.drop_last()[i]).name@
                        == name;
                assert(entries[i].name@ == name);
            }
        }
        if exists|i: int| 0 <= i < entries.len() && (#[trigger] entries[i]).name@ == name {
            let i = choose|i: int| 0 <= i < entries.len() && (#[trigger] entries[i]).name@ == name;
            if i < entries.len() - 1 {
                assert(entries.drop_last()[i].name@ == name);
            }
        }
    }
}

/// Replacing the bytes of the last entry of a name replaces them in the
/// map.
proof fn lemma_entries_map_update(entries: Seq<FakeEntry>, i: int, entry: FakeEntry)
    requires
        0 <= i < entries.len(),
        entry.name@ == entries[i].name@,
        last_of_name(entries, i, entry.name@),
    ensures
        entries_map(entries.update(i, entry)) == entries_map(entries).insert(
            entry.name@,
            entry.data@,
        ),
    decreases entries.len(),
{
    let updated = entries.update(i, entry);
    if i == entries.len() - 1 {
        assert(updated.drop_last() =~= entries.drop_last());
        assert(entries_map(updated) =~= entries_map(entries).insert(entry.name@, entry.data@));
    } else {
        assert(updated.drop_last() =~= entries.drop_last().update(i, entry));
        assert(last_of_name(entries.drop_last(), i, entry.name@)) by {
            assert forall|j: int| i < j < entries.drop_last().len() implies (
            #[trigger] entries.drop_last()[j]).name@ != entry.name@ by {
                assert(entries[j].name@ != entry.name@);
            }
        }
        assert(entries.drop_last()[i] == entries[i]);
        lemma_entries_map_update(entries.drop_last(), i, entry);
        assert(entries[entries.len() - 1].name@ != entry.name@);
        assert(updated.last() == entries.last());
        assert(entries_map(updated) =~= entries_map(entries).insert(entry.name@, entry.data@));
    }
}

/// An in-memory file system. The files are a list of named entries, and
/// the last entry of a name is the file of that name. A file that is
/// handed out borrows the bytes of its entry; the maps that vstd specifies
/// for string keys hand out no such borrow, so the entries are kept here.
pub struct FakeFileSystem {
    files: Vec<FakeEntry>,
}

impl View for FakeFileSystem {
    type V = Map<Seq<char>, Seq<u8>>;

    closed spec fn view(&self) -> Map<Seq<char>, Seq<u8>> {
        entries_map(self.files@)
    }
}

impl FakeFileSystem {
    /// A file system without files.
    pub fn new() -> (file_system: Self)
        ensures
            file_system@ == Map::<Seq<char>, Seq<u8>>::empty(),
    {
        FakeFileSystem { files: Vec::new() }
    }

    /// The position of the file of the given name: the last entry of that
    /// name, which is the one that the name stands for.
    fn position_of(&self, path: &str) -> (position: Option<usize>)
        ensures
            match position {
                Some(i) => i < self.files@.len() && self.files@[i as int].name@ == path@
                    && last_of_name(self.files@, i as int, path@),
                None => forall|i: int|
                    0 <= i < self.files@.len() ==> (#[trigger] self.files@[i]).name@ != path@,
            },
    {
        let mut i: usize = self.files.len();
        while i > 0
            invariant
                i <= self.files.len(),
                forall|k: int| i <= k < self.files@.len() ==> (#[trigger] self.files@[k]).name@ != path@,
            decreases i,
        {
            i -= 1;
            if str_eq(self.files[i].name.as_str(), path) {
                return Some(i);
            }
        }
        None
    }

    /// Whether a file of the given name exists.
    pub fn contains(&self, path: &str) -> (found: bool)
        ensures
            found == self@.contains_key(path@),
    {
        proof {
            lemma_entries_map_names(self.files@, path@);
        }
        self.position_of(path).is_some()
    }

    /// A copy of the bytes of the file of the given name.
    pub fn contents(&self, path: &str) -> (contents: Option<Vec<u8>>)
        ensures
            match contents {
                Some(bytes) => self@.contains_key(path@) && bytes@ == self@[path@],
                None => !self@.contains_key(path@),
            },
    {
        proof {
            lemma_entries_map_names(self.files@, path@);
        }
        match self.position_of(path) {
            Some(i) => {
                proof {
                    lemma_entries_map_update(self.files@, i as int, self.files@[i as int]);
                    assert(self.files@.update(i as int, self.files@[i as int]) =~= self.files@);
                }
                Some(self.files[i].data.0.clone())
            },
            None => None,
        }
    }
}

impl<'a> FileSystemWrapper<'a> for FakeFileSystem {
    type FileType = FakeFile<'a>;

    type Error = FsError;

    /// Creates an empty file under a name that no file has yet, and hands
    /// out a file over its bytes: what is written through that file is
    /// what the file system holds under the name afterwards.
    fn create(&'a mut self, path: &str) -> (created: Result<FakeFile<'a>, FsError>)
        ensures
            match created {
                Ok(file) => {
                    &&& !old(self)@.contains_key(path@)
                    &&& file matches FakeFile::Borrowed(borrowed)
                    &&& borrowed.contents() == Seq::<u8>::empty()
                    &&& borrowed.position() == 0
                    &&& final(self)@ == old(self)@.insert(path@, (*final(borrowed.inner))@)
                },
                Err(e) => {
                    &&& e == FsError::AlreadyExists
                    &&& old(self)@.contains_key(path@)
                    &&& final(self)@ == old(self)@
                },
            },
    {
        proof {
            lemma_entries_map_names(self.files@, path@);
        }
        match self.position_of(path) {
            Some(_) => Err(FsError::AlreadyExists),
            None => {
                let ghost before = self.files@;
                self.files.push(FakeEntry { name: path.to_owned(), data: FakeFileData::new() });
                let ghost pushed = self.files@;
                let last = self.files.len() - 1;
                proof {
                    assert(pushed.drop_last() =~= before);
                    assert forall|entry: FakeEntry| entry.name@ == path@ implies entries_map(
                        #[trigger] pushed.update(last as int, entry),
                    ) == entries_map(before).insert(path@, entry.data@) by {
                        lemma_entries_map_update(pushed, last as int, entry);
                        assert(entries_map(pushed).insert(path@, entry.data@) =~= entries_map(
                            before,
                        ).insert(path@, entry.data@));
                    }
                }
                let entry = &mut self.files[last];
                Ok(entry.data.as_fake_file())
            },
        }
    }

    /// Opens the file of the given name, positioned at its start: what is
    /// written through the file is what the file system holds under the
    /// name afterwards.
    fn open(&'a mut self, path: &str) -> (opened: Result<FakeFile<'a>, FsError>)
        ensures
            match opened {
                Ok(file) => {
                    &&& old(self)@.contains_key(path@)
                    &&& file matches FakeFile::Borrowed(borrowed)
                    &&& borrowed.contents() == old(self)@[path@]
                    &&& borrowed.position() == 0
                    &&& final(self)@ == old(self)@.insert(path@, (*final(borrowed.inner))@)
                },
                Err(e) => {
                    &&& e == FsError::NotFound
                    &&& !old(self)@.contains_key(path@)
                    &&& final(self)@ == old(self)@
                },
            },
    {
        proof {
            lemma_entries_map_names(self.files@, path@);
        }
        match self.position_of(path) {
            None => Err(FsError::NotFound),
            Some(i) => {
                let ghost before = self.files@;
                proof {
                    lemma_entries_map_update(before, i as int, before[i as int]);
                    assert(before.update(i as int, before[i as int]) =~= before);
                    assert forall|entry: FakeEntry| entry.name@ == path@ implies entries_map(
                        #[trigger] before.update(i as int, entry),
                    ) == entries_map(before).insert(path@, entry.data@) by {
                        lemma_entries_map_update(before, i as int, entry);
                    }
                }
                let entry = &mut self.files[i];
                Ok(entry.data.as_fake_file())
            },
        }
    }

    /// Makes an empty file that owns its bytes; the file system does not
    /// change.
    fn tempfile(&'a mut self) -> (made: Result<FakeFile<'a>, FsError>)
        ensures
            made matches Ok(FakeFile::Owned(file)) && file.contents() == Seq::<u8>::empty()
                && file.position() == 0,
            final(self)@ == old(self)@,
    {
        Ok(FakeFile::Owned(OwnedFakeFile::new()))
    }
}

} // verus!
