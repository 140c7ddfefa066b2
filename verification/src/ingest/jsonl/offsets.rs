//! How far each transcript file has been read.

use vstd::prelude::*;
use vstd::utf8::{encode_utf8, valid_utf8};
use crate::assoc::{lemma_index_of, lemma_put, lookup, put, Table};
use crate::outside::text_from_bytes;
use crate::paths::{components, path_components};
use crate::text::{has_suffix, pieces, split, strip_suffix, texts_of};

verus! {

/// How far a file has been read, and which file it was.
#[derive(Debug, Clone, Copy, PartialEq, Eq, Structural)]
pub struct FileOffsetEntry {
    pub offset: u64,
    pub dev: u64,
    pub inode: u64,
}

impl View for FileOffsetEntry {
    type V = FileOffsetEntry;

    open spec fn view(&self) -> FileOffsetEntry {
        *self
    }
}

/// How far each file has been read, by its path.
#[derive(Debug)]
pub struct FileOffsets {
    pub inner: Table<FileOffsetEntry>,
}

impl View for FileOffsets {
    type V = Seq<(Seq<char>, FileOffsetEntry)>;

    open spec fn view(&self) -> Seq<(Seq<char>, FileOffsetEntry)> {
        self.inner@
    }
}

impl Default for FileOffsets {
    fn default() -> (r: FileOffsets)
        ensures
            r@.len() == 0,
    {
        FileOffsets::new()
    }
}

/// A file that was found on disk.
#[derive(Debug)]
pub struct FoundFile {
    pub path: String,
    pub len: u64,
    pub dev: u64,
    pub inode: u64,
}

/// The offsets with all these files at their ends.
pub open spec fn with_found(
    offsets: Seq<(Seq<char>, FileOffsetEntry)>,
    files: Seq<FoundFile>,
) -> Seq<(Seq<char>, FileOffsetEntry)>
    decreases files.len(),
{
    if files.len() == 0 {
        offsets
    } else {
        let f = files.last();
        put(
            with_found(offsets, files.drop_last()),
            f.path@,
            FileOffsetEntry { offset: f.len, dev: f.dev, inode: f.inode },
        )
    }
}

/// Where to read on in a file: from its start if the file is new or another file
/// has taken its place, and else from where reading ended.
pub open spec fn resume_entry(
    offsets: Seq<(Seq<char>, FileOffsetEntry)>,
    path: Seq<char>,
    dev: u64,
    inode: u64,
) -> FileOffsetEntry {
    match lookup(offsets, path) {
        Some(e) if e.dev == dev && e.inode == inode => e,
        _ => FileOffsetEntry { offset: 0, dev, inode },
    }
}

/// A line without the carriage return that belongs to its end.
pub open spec fn without_return(line: Seq<char>) -> Seq<char> {
    if line.len() > 0 && line.last() == '\r' {
        line.drop_last()
    } else {
        line
    }
}

/// The lines of a text, without their ends. An end is a line feed, with the
/// carriage return before it if there is one. What follows the last end counts
/// as a line, and is kept as it is.
pub open spec fn read_lines(text: Seq<char>) -> Seq<Seq<char>> {
    let parts = pieces(text, '\n');
    let ended = parts.drop_last().map_values(|l: Seq<char>| without_return(l));
    if parts.last().len() == 0 {
        ended
    } else {
        ended.push(parts.last())
    }
}

impl FileOffsets {
    pub fn new() -> (r: FileOffsets)
        ensures
            r@.len() == 0,
    {
        FileOffsets { inner: Table::new() }
    }

    /// Marks files as read to their ends, so that only lines count that come
    /// after this.
    pub fn snapshot_existing(&mut self, files: &Vec<FoundFile>)
        ensures
            final(self)@ == with_found(old(self)@, files@),
    {
        let ghost start = self@;
        let mut i: usize = 0;
        assert(files@.take(0) =~= Seq::empty());
        while i < files.len()
            invariant
                i <= files@.len(),
                self@ == with_found(start, files@.take(i as int)),
            decreases files@.len() - i,
        {
            assert(files@.take(i + 1).drop_last() =~= files@.take(i as int));
            let f = &files[i];
            self.inner.insert(
                f.path.clone(),
                FileOffsetEntry { offset: f.len, dev: f.dev, inode: f.inode },
            );
            i = i + 1;
        }
        assert(files@.take(i as int) =~= files@);
    }

    /// Where to read on in the file that is now at `path`.
    pub fn resume(&mut self, path: &str, dev: u64, inode: u64) -> (offset: u64)
        ensures
            offset == resume_entry(old(self)@, path@, dev, inode).offset,
            final(self)@ == put(old(self)@, path@, resume_entry(old(self)@, path@, dev, inode)),
            lookup(final(self)@, path@) == Some(resume_entry(old(self)@, path@, dev, inode)),
    {
        proof {
            lemma_index_of(self@, path@);
        }
        let entry = match self.inner.get(path) {
            Some(e) => if e.dev == dev && e.inode == inode {
                *e
            } else {
                FileOffsetEntry { offset: 0, dev, inode }
            },
            None => FileOffsetEntry { offset: 0, dev, inode },
        };
        self.inner.insert(path.to_owned(), entry);
        proof {
            lemma_put(old(self)@, path@, entry, path@);
        }
        entry.offset
    }

    /// Takes what was read from a file that is known, from its offset on: its
    /// lines, and the new offset behind it. The last line may have no end.
    pub fn drain_new_lines(&mut self, path: &str, text: &str) -> (r: Vec<String>)
        requires
            lookup(old(self)@, path@) is Some,
            lookup(old(self)@, path@)->0.offset + encode_utf8(text@).len() <= u64::MAX,
        ensures
            texts_of(r@) == read_lines(text@),
            final(self)@ == put(
                old(self)@,
                path@,
                FileOffsetEntry {
                    offset: (lookup(old(self)@, path@)->0.offset + encode_utf8(text@).len()) as u64,
                    ..lookup(old(self)@, path@)->0
                },
            ),
    {
        let n = text.as_bytes().len();
        let found = match self.inner.get(path) {
            Some(e) => *e,
            None => FileOffsetEntry { offset: 0, dev: 0, inode: 0 },
        };
        self.inner.insert(
            path.to_owned(),
            FileOffsetEntry { offset: found.offset + n as u64, ..found },
        );
        split_lines(text)
    }
}

proof fn lemma_return(line: Seq<char>)
    ensures
        has_suffix(line, "\r"@) == (line.len() > 0 && line.last() == '\r'),
        has_suffix(line, "\r"@) ==> line.subrange(0, line.len() - "\r"@.len()) == line.drop_last(),
{
    reveal_strlit("\r");
    if line.len() > 0 {
        let end = line.subrange(line.len() - 1, line.len() as int);
        assert(end[0] == line.last());
        assert(end =~= seq![line.last()]);
        assert("\r"@ =~= seq!['\r']);
        if line.last() != '\r' {
            assert("\r"@[0] != end[0]);
        }
        assert(line.subrange(0, line.len() - 1) =~= line.drop_last());
    }
}

/// The lines of a text, without their ends.
pub fn split_lines(text: &str) -> (r: Vec<String>)
    ensures
        texts_of(r@) == read_lines(text@),
{
    let parts = split(text, '\n');
    let ghost all = texts_of(parts@);
    let n = parts.len();
    assert(all.last() == parts@[n - 1]@);
    let ghost ended = all.drop_last().map_values(|l: Seq<char>| without_return(l));
    let mut r: Vec<String> = Vec::new();
    let mut i: usize = 0;
    while i + 1 < n
        invariant
            i < n,
            n == parts@.len(),
            all == texts_of(parts@),
            r@.len() == i,
            forall|j: int| 0 <= j < i ==> (#[trigger] r@[j])@ == without_return(all[j]),
        decreases n - i,
    {
        assert(all[i as int] == parts@[i as int]@);
        proof {
            lemma_return(parts@[i as int]@);
        }
        match strip_suffix(parts[i].as_str(), "\r") {
            Some(line) => r.push(line.to_owned()),
            None => r.push(parts[i].clone()),
        }
        i = i + 1;
    }
    assert(texts_of(r@) =~= ended);
    if !parts[n - 1].as_str().is_empty() {
        r.push(parts[n - 1].clone());
        assert(texts_of(r@) =~= ended.push(all.last()));
    }
    r
}

/// Where the first line of some bytes ends, its line feed counted.
pub open spec fn line_end(bytes: Seq<u8>) -> nat
    decreases bytes.len(),
{
    if bytes.len() == 0 {
        0
    } else if bytes[0] == 10 {
        1
    } else {
        1 + line_end(bytes.subrange(1, bytes.len() as int))
    }
}

/// How many of some bytes can be read: the lines up to the first one that is not
/// UTF-8.
pub open spec fn readable_len(bytes: Seq<u8>) -> nat
    decreases bytes.len(),
    via readable_len_decreases
{
    if bytes.len() == 0 {
        0
    } else {
        let n = line_end(bytes);
        if valid_utf8(bytes.take(n as int)) {
            n + readable_len(bytes.subrange(n as int, bytes.len() as int))
        } else {
            0
        }
    }
}

#[via_fn]
proof fn readable_len_decreases(bytes: Seq<u8>) {
    lemma_line_end(bytes);
}

proof fn lemma_line_end(bytes: Seq<u8>)
    ensures
        line_end(bytes) <= bytes.len(),
        bytes.len() > 0 ==> line_end(bytes) > 0,
    decreases bytes.len(),
{
    if bytes.len() > 0 && bytes[0] != 10 {
        lemma_line_end(bytes.subrange(1, bytes.len() as int));
    }
}

pub proof fn lemma_encode_concat(a: Seq<char>, b: Seq<char>)
    ensures
        encode_utf8(a + b) == encode_utf8(a) + encode_utf8(b),
    decreases a.len(),
{
    if a.len() == 0 {
        assert(a + b =~= b);
        assert(encode_utf8(a) =~= Seq::<u8>::empty());
        assert(encode_utf8(a) + encode_utf8(b) =~= encode_utf8(b));
    } else {
        lemma_encode_concat(a.drop_first(), b);
        assert((a + b).drop_first() =~= a.drop_first() + b);
        assert(encode_utf8(a + b) =~= encode_utf8(a) + encode_utf8(b));
    }
}

/// The text of the lines that can be read. A line that is not UTF-8 is left for
/// the next time, with all that follows it.
pub fn readable_text(bytes: &Vec<u8>) -> (r: String)
    ensures
        readable_len(bytes@) <= bytes@.len(),
        encode_utf8(r@) == bytes@.take(readable_len(bytes@) as int),
{
    let ghost all = bytes@;
    let n = bytes.len();
    let mut r = String::new();
    let mut i: usize = 0;
    assert(all.subrange(0, all.len() as int) =~= all);
    assert(encode_utf8(r@) =~= all.take(0));
    while i < n
        invariant
            i <= n,
            n == bytes@.len(),
            all == bytes@,
            encode_utf8(r@) == all.take(i as int),
            readable_len(all) == i + readable_len(all.subrange(i as int, n as int)),
        decreases n - i,
    {
        let ghost rest = all.subrange(i as int, n as int);
        proof {
            lemma_line_end(rest);
        }
        let mut line: Vec<u8> = Vec::new();
        let mut j: usize = i;
        let mut open = true;
        assert(rest.subrange(0, rest.len() as int) =~= rest);
        while open && j < n
            invariant
                i <= j <= n,
                n == bytes@.len(),
                all == bytes@,
                rest == all.subrange(i as int, n as int),
                line@ == all.subrange(i as int, j as int),
                open ==> line_end(rest) == (j - i) + line_end(all.subrange(j as int, n as int)),
                !open ==> line_end(rest) == j - i,
            decreases n - j + (if open {
                1int
            } else {
                0int
            }),
        {
            let ghost tail = all.subrange(j as int, n as int);
            assert(tail[0] == all[j as int]);
            assert(tail.subrange(1, tail.len() as int) =~= all.subrange(j + 1, n as int));
            let b = bytes[j];
            line.push(b);
            assert(line@ =~= all.subrange(i as int, j + 1));
            j = j + 1;
            if b == 10 {
                open = false;
            }
        }
        assert(all.subrange(n as int, n as int).len() == 0);
        assert(line_end(rest) == j - i);
        assert(rest.take(j - i) =~= all.subrange(i as int, j as int));
        match text_from_bytes(line) {
            Some(text) => {
                proof {
                    lemma_encode_concat(r@, text@);
                    assert(all.take(i as int) + all.subrange(i as int, j as int) =~= all.take(
                        j as int,
                    ));
                    assert(rest.subrange(j - i, rest.len() as int) =~= all.subrange(
                        j as int,
                        n as int,
                    ));
                }
                r.append(text.as_str());
                i = j;
            },
            None => {
                return r;
            },
        }
    }
    assert(all.subrange(n as int, n as int).len() == 0);
    r
}

/// Whether a path names a transcript: its last name has the ending `.jsonl`
/// behind something.
pub open spec fn is_transcript(path: Seq<char>) -> bool {
    let names = components(path);
    names.len() > 0 && names.last().len() > ".jsonl"@.len() && has_suffix(
        names.last(),
        ".jsonl"@,
    )
}

/// Whether a path names a transcript.
pub fn is_jsonl_path(path: &str) -> (r: bool)
    ensures
        r == is_transcript(path@),
{
    let names = path_components(path);
    let n = names.len();
    assert(texts_of(names@).len() == n);
    if n == 0 {
        return false;
    }
    assert(texts_of(names@).last() == names@[n - 1]@);
    match strip_suffix(names[n - 1].as_str(), ".jsonl") {
        Some(stem) => !stem.is_empty(),
        None => false,
    }
}

/// History is not replayed: after a snapshot each file that was found is read on
/// from its end, whatever was known of it before.
pub proof fn law_snapshot_skips_history(
    offsets: Seq<(Seq<char>, FileOffsetEntry)>,
    files: Seq<FoundFile>,
    i: int,
)
    requires
        0 <= i < files.len(),
        forall|j: int| i < j < files.len() ==> (#[trigger] files[j]).path@ != files[i].path@,
    ensures
        resume_entry(
            with_found(offsets, files),
            files[i].path@,
            files[i].dev,
            files[i].inode,
        ).offset == files[i].len,
    decreases files.len(),
{
    let f = files.last();
    let before = with_found(offsets, files.drop_last());
    let end = FileOffsetEntry { offset: f.len, dev: f.dev, inode: f.inode };
    lemma_put(before, f.path@, end, files[i].path@);
    if i < files.len() - 1 {
        law_snapshot_skips_history(offsets, files.drop_last(), i);
    }
}

/// A file that is replaced is read from its start; one that is not goes on where
/// reading ended.
pub proof fn law_replaced_file_starts_over(
    offsets: Seq<(Seq<char>, FileOffsetEntry)>,
    path: Seq<char>,
    dev: u64,
    inode: u64,
)
    requires
        lookup(offsets, path) is Some,
    ensures
        ({
            let e = lookup(offsets, path)->0;
            let next = resume_entry(offsets, path, dev, inode);
            if e.dev == dev && e.inode == inode {
                next == e
            } else {
                next.offset == 0
            }
        }),
{
}

/// Reading goes on exactly behind what was read: after a file was read to its
/// end, the next start is the old one and the bytes in between.
pub proof fn law_offset_is_bytes_read(
    offsets: Seq<(Seq<char>, FileOffsetEntry)>,
    path: Seq<char>,
    dev: u64,
    inode: u64,
    read: nat,
)
    requires
        resume_entry(offsets, path, dev, inode).offset + read <= u64::MAX,
    ensures
        ({
            let start = resume_entry(offsets, path, dev, inode);
            let after = put(
                put(offsets, path, start),
                path,
                FileOffsetEntry { offset: (start.offset + read) as u64, ..start },
            );
            resume_entry(after, path, dev, inode).offset == start.offset + read
        }),
{
    let start = resume_entry(offsets, path, dev, inode);
    let moved = FileOffsetEntry { offset: (start.offset + read) as u64, ..start };
    lemma_put(put(offsets, path, start), path, moved, path);
}

} // verus!
