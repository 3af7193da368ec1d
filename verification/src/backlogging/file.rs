//! The backlog on disk: one archive file for each destination, named after
//! it, with one pending measurement on each line.
//!
//! This module decides; it opens no file. Its functions take what was read
//! from the directory and say what has to be written to it. A backlog
//! directory belongs to one client of one process: two processes on the
//! same directory are not kept apart, and what they do to each other's
//! archives is undefined.

use vstd::prelude::*;
use vstd::string::StringExecFns;

use crate::backlogging::archive::all_entries;
use crate::backlogging::archive::first_failure;
use crate::backlogging::archive::lemma_first_failure;
use crate::backlogging::archive::turned;
use crate::backlogging::archive::Append;
use crate::backlogging::archive::Archive;
use crate::backlogging::archive::ArchiveState;
use crate::backlogging::framing::archive_lines;
use crate::backlogging::framing::frame;
use crate::backlogging::framing::is_closed;
use crate::backlogging::framing::law_append_keeps_lines;
use crate::backlogging::naming::name_parts;
use crate::backlogging::naming::names_archive;
use crate::backlogging::naming::unnamed_text;
use crate::backlogging::naming::ArchiveMeta;
use crate::error::InfluxError;
use crate::error::InfluxResult;
use crate::measurement::Measurement;
use crate::precision::Precision;
use crate::record::Record;
use crate::text::compare;
use crate::text::texts;
use crate::text::Order;

verus! {

/// One file of the backlog directory, as it was found: its name and the
/// number of its lines.
#[derive(Debug, Clone, PartialEq, Eq)]
pub struct DirEntry {
    pub name: String,
    pub lines: usize,
}

/// What was found at the place of the backlog directory.
#[derive(Debug, PartialEq, Eq)]
pub enum DirScan {
    /// The place is no directory.
    NotADirectory,
    /// The files of the directory.
    Entries(Vec<DirEntry>),
}

/// Tells whether the archive at position `i` belongs to the file `path`.
pub open spec fn slot(archives: Seq<Archive>, path: Seq<char>, i: int) -> bool {
    0 <= i < archives.len() && archives[i].path@ == path
}

/// Tells whether the archives are those of one directory: each stands for
/// the destination that its file name gives, and no two share a file.
pub open spec fn consistent(archives: Seq<Archive>) -> bool {
    &&& forall|i: int| 0 <= i < archives.len() ==> (#[trigger] archives[i]).is_named()
    &&& forall|i: int, j: int|
        0 <= i < archives.len() && 0 <= j < archives.len() && i != j ==> (
        #[trigger] archives[i]).path@ != (#[trigger] archives[j]).path@
}

/// Tells whether none of the archives has been opened yet.
pub open spec fn untouched(archives: Seq<Archive>) -> bool {
    forall|i: int| 0 <= i < archives.len() ==> (#[trigger] archives[i]).state
        == ArchiveState::Unopened
}

/// The number of entries that wait in the file `path`: none where no
/// archive belongs to it.
pub open spec fn pending_in(archives: Seq<Archive>, path: Seq<char>) -> nat {
    if exists|i: int| slot(archives, path, i) {
        archives[choose|i: int| slot(archives, path, i)].count as nat
    } else {
        0
    }
}

/// Where the archive of the file `path` stands: `None` where no archive
/// belongs to it.
pub open spec fn state_in(archives: Seq<Archive>, path: Seq<char>) -> Option<ArchiveState> {
    if exists|i: int| slot(archives, path, i) {
        Some(archives[choose|i: int| slot(archives, path, i)].state)
    } else {
        None
    }
}

/// The names of the files in which entries wait, in the order of the
/// archives.
pub open spec fn waiting(archives: Seq<Archive>) -> Seq<Seq<char>>
    decreases archives.len(),
{
    if archives.len() == 0 {
        Seq::empty()
    } else if archives.last().count > 0 {
        waiting(archives.drop_last()).push(archives.last().path@)
    } else {
        waiting(archives.drop_last())
    }
}

/// The number of lines under which the directory lists the file `path`:
/// that of its last entry of this name, and none without one.
pub open spec fn listed_lines(entries: Seq<DirEntry>, path: Seq<char>) -> nat
    decreases entries.len(),
{
    if entries.len() == 0 {
        0
    } else if entries.last().name@ == path {
        entries.last().lines as nat
    } else {
        listed_lines(entries.drop_last(), path)
    }
}

/// The position of the first entry whose name names no archive, or the
/// number of entries where each names one.
pub open spec fn first_stranger(entries: Seq<DirEntry>) -> int
    decreases entries.len(),
{
    if entries.len() == 0 {
        0
    } else if first_stranger(entries.drop_last()) < entries.len() - 1 {
        first_stranger(entries.drop_last())
    } else if !names_archive(entries.last().name@) {
        entries.len() - 1
    } else {
        entries.len() as int
    }
}

/// The error of the first line of a file that did not decode.
pub open spec fn damage(lines: Seq<InfluxResult<Measurement>>) -> InfluxError {
    lines[first_failure(lines)]->Err_0
}

/// The position of the first file with a line that did not decode, or the
/// number of files where every line of each decoded.
pub open spec fn first_damaged(contents: Seq<Vec<InfluxResult<Measurement>>>) -> int
    decreases contents.len(),
{
    if contents.len() == 0 {
        0
    } else if first_damaged(contents.drop_last()) < contents.len() - 1 {
        first_damaged(contents.drop_last())
    } else if first_failure(contents.last()@) < contents.last()@.len() {
        contents.len() - 1
    } else {
        contents.len() as int
    }
}

/// Tells whether `records` are what the archives hold, given the lines of
/// the files with entries as they decoded: one record for each archive with
/// entries, in the order of the archives, each under the destination of its
/// archive and with the measurements of its file.
pub open spec fn assembled(
    archives: Seq<Archive>,
    contents: Seq<Vec<InfluxResult<Measurement>>>,
    records: Seq<Record>,
) -> bool
    decreases archives.len(),
{
    if archives.len() == 0 {
        contents.len() == 0 && records.len() == 0
    } else if archives.last().count == 0 {
        assembled(archives.drop_last(), contents, records)
    } else {
        &&& contents.len() > 0
        &&& records.len() > 0
        &&& archives.last().holds(&records.last(), contents.last()@)
        &&& assembled(archives.drop_last(), contents.drop_last(), records.drop_last())
    }
}

/// Among consistent archives the archive at a position decides what waits
/// in its file.
pub proof fn lemma_pending_at(archives: Seq<Archive>, i: int)
    requires
        consistent(archives),
        0 <= i < archives.len(),
    ensures
        pending_in(archives, archives[i].path@) == archives[i].count,
        state_in(archives, archives[i].path@) == Some(archives[i].state),
{
    assert(slot(archives, archives[i].path@, i));
    let j = choose|j: int| slot(archives, archives[i].path@, j);
    assert(i == j);
}

/// Archives that differ at one position at most hold the same number of
/// entries for every other file.
pub proof fn lemma_pending_elsewhere(
    before: Seq<Archive>,
    after: Seq<Archive>,
    at: int,
    path: Seq<char>,
)
    requires
        consistent(before),
        consistent(after),
        0 <= at < after.len(),
        after[at].path@ != path,
        before.len() == after.len() || (before.len() + 1 == after.len() && at == before.len()),
        forall|i: int| 0 <= i < before.len() && i != at ==> before[i] == after[i],
        at < before.len() ==> before[at].path@ == after[at].path@,
    ensures
        pending_in(after, path) == pending_in(before, path),
{
    if exists|i: int| slot(after, path, i) {
        let i = choose|i: int| slot(after, path, i);
        assert(i != at);
        assert(slot(before, path, i));
        lemma_pending_at(before, i);
    } else if exists|i: int| slot(before, path, i) {
        let i = choose|i: int| slot(before, path, i);
        assert(slot(after, path, i));
    }
}

/// A stranger at position `i` behind entries that all name archives is the
/// first stranger of the whole.
pub proof fn lemma_first_stranger_of_prefix(entries: Seq<DirEntry>, i: int)
    requires
        0 <= i < entries.len(),
        first_stranger(entries.take(i)) == i,
        !names_archive(entries[i].name@),
    ensures
        first_stranger(entries) == i,
    decreases entries.len(),
{
    if entries.len() == i + 1 {
        assert(entries.drop_last() == entries.take(i));
    } else {
        let front = entries.drop_last();
        assert(front.take(i) == entries.take(i));
        lemma_first_stranger_of_prefix(front, i);
    }
}

/// A damaged file at position `k` behind files without damage is the first
/// damaged file of the whole.
pub proof fn lemma_first_damaged_of_prefix(contents: Seq<Vec<InfluxResult<Measurement>>>, k: int)
    requires
        0 <= k < contents.len(),
        first_damaged(contents.take(k)) == k,
        first_failure(contents[k]@) < contents[k]@.len(),
    ensures
        first_damaged(contents) == k,
    decreases contents.len(),
{
    if contents.len() == k + 1 {
        assert(contents.drop_last() == contents.take(k));
    } else {
        let front = contents.drop_last();
        assert(front.take(k) == contents.take(k));
        lemma_first_damaged_of_prefix(front, k);
    }
}

/// Among the first `i` archives no more files wait than among all.
pub proof fn lemma_waiting_grows(archives: Seq<Archive>, i: int)
    requires
        0 <= i <= archives.len(),
    ensures
        waiting(archives.take(i)).len() <= waiting(archives).len(),
    decreases archives.len() - i,
{
    if i < archives.len() {
        lemma_waiting_grows(archives, i + 1);
        assert(archives.take(i + 1).drop_last() == archives.take(i));
    } else {
        assert(archives.take(i) == archives);
    }
}

/// A file in which entries wait is among the files to read.
pub proof fn lemma_pending_is_waiting(archives: Seq<Archive>, path: Seq<char>)
    requires
        consistent(archives),
        pending_in(archives, path) > 0,
    ensures
        waiting(archives).contains(path),
    decreases archives.len(),
{
    let i = choose|i: int| slot(archives, path, i);
    lemma_pending_at(archives, i);
    let front = archives.drop_last();
    if i == archives.len() - 1 {
        let w = waiting(front).push(path);
        assert(w[w.len() - 1] == path);
    } else {
        assert(consistent(front)) by {
            assert forall|a: int| 0 <= a < front.len() implies (#[trigger] front[a]).is_named() by {
                assert(front[a] == archives[a]);
            }
            assert forall|a: int, b: int|
                0 <= a < front.len() && 0 <= b < front.len() && a != b implies (
            #[trigger] front[a]).path@ != (#[trigger] front[b]).path@ by {
                assert(front[a] == archives[a]);
                assert(front[b] == archives[b]);
            }
        }
        assert(slot(front, path, i));
        lemma_pending_at(front, i);
        lemma_pending_is_waiting(front, path);
        let at = choose|at: int| 0 <= at < waiting(front).len() && waiting(front)[at] == path;
        if archives.last().count > 0 {
            assert(waiting(archives)[at] == path);
        }
    }
}

/// The backlog on disk, as far as it is known without reading: the archives
/// of a directory, each with the number of entries that wait in it.
#[derive(Debug, PartialEq, Eq)]
pub struct FileBacklog {
    dir: String,
    archives: Vec<Archive>,
}

impl FileBacklog {
    #[verifier::type_invariant]
    spec fn well_formed(&self) -> bool {
        consistent(self.archives@)
    }

    /// The archives of the backlog, in the order in which they were found
    /// or made.
    pub closed spec fn archives(&self) -> Seq<Archive> {
        self.archives@
    }

    /// The directory of the backlog.
    pub closed spec fn directory(&self) -> Seq<char> {
        self.dir@
    }

    /// The number of entries that wait in the file `path`.
    pub open spec fn pending(&self, path: Seq<char>) -> nat {
        pending_in(self.archives(), path)
    }

    /// Where the archive of the file `path` stands.
    pub open spec fn state(&self, path: Seq<char>) -> Option<ArchiveState> {
        state_in(self.archives(), path)
    }

    /// The text of the error for a place that is no directory.
    pub open spec fn no_directory_text(dir: Seq<char>) -> Seq<char> {
        "Backlog dir is not a directory: "@ + dir
    }

    /// The position of the archive of the file `path`, if there is one.
    fn find(archives: &Vec<Archive>, path: &str) -> (at: Option<usize>)
        ensures
            at matches Some(i) ==> slot(archives@, path@, i as int),
            at is None ==> forall|i: int| !slot(archives@, path@, i),
    {
        let mut i: usize = 0;
        while i < archives.len()
            invariant
                i <= archives@.len(),
                forall|j: int| 0 <= j < i ==> !slot(archives@, path@, j),
            decreases archives@.len() - i,
        {
            if compare(archives[i].path.as_str(), path) == Order::Equal {
                return Some(i);
            }
            i += 1;
        }
        None
    }

    /// The backlog of a directory, from what was found at its place.
    ///
    /// A place that is no directory is refused, and so is a directory with
    /// a file whose name names no archive: the first such file decides the
    /// error. Otherwise every file is an archive with as many entries as it
    /// has lines.
    pub fn new(dir: &str, scan: DirScan) -> (r: InfluxResult<Self>)
        ensures
            match scan {
                DirScan::NotADirectory => r matches Err(InfluxError::Error(m)) && m@
                    == Self::no_directory_text(dir@),
                DirScan::Entries(entries) => {
                    let k = first_stranger(entries@);
                    if k < entries@.len() {
                        r matches Err(InfluxError::Error(m)) && m@ == if name_parts(
                            entries@[k].name@,
                        ).len() < 3 {
                            unnamed_text(entries@[k].name@)
                        } else {
                            Precision::invalid_text(name_parts(entries@[k].name@)[2])
                        }
                    } else {
                        r matches Ok(backlog) && backlog.directory() == dir@ && consistent(
                            backlog.archives(),
                        ) && untouched(backlog.archives()) && forall|path: Seq<char>|
                            backlog.pending(path) == listed_lines(entries@, path)
                    }
                },
            },
    {
        match scan {
            DirScan::NotADirectory => {
                let mut msg = String::from_str("Backlog dir is not a directory: ");
                msg.append(dir);
                Err(InfluxError::Error(msg))
            },
            DirScan::Entries(entries) => {
                let mut archives: Vec<Archive> = Vec::new();
                let mut k: usize = 0;
                while k < entries.len()
                    invariant
                        scan == DirScan::Entries(entries),
                        k <= entries@.len(),
                        consistent(archives@),
                        untouched(archives@),
                        first_stranger(entries@.take(k as int)) == k,
                        forall|path: Seq<char>|
                            pending_in(archives@, path) == listed_lines(
                                entries@.take(k as int),
                                path,
                            ),
                    decreases entries@.len() - k,
                {
                    let ghost seen = entries@.take(k as int);
                    let ghost next = entries@.take(k as int + 1);
                    let ghost before = archives@;
                    proof {
                        assert(next.drop_last() == seen);
                        assert(next.last() == entries@[k as int]);
                    }
                    let name = entries[k].name.as_str();
                    match Archive::open(name, entries[k].lines) {
                        Ok(archive) => {
                            let at = match Self::find(&archives, name) {
                                Some(at) => {
                                    archives[at] = archive;
                                    at
                                },
                                None => {
                                    archives.push(archive);
                                    archives.len() - 1
                                },
                            };
                            proof {
                                let after = archives@;
                                assert(after[at as int] == archive);
                                assert forall|i: int, j: int|
                                    0 <= i < after.len() && 0 <= j < after.len() && i
                                        != j implies (#[trigger] after[i]).path@ != (
                                #[trigger] after[j]).path@ by {
                                    if i != at && j != at {
                                        assert(after[i] == before[i]);
                                        assert(after[j] == before[j]);
                                    } else if i == at {
                                        assert(after[j] == before[j]);
                                        assert(!slot(before, name@, j) || at < before.len());
                                    } else {
                                        assert(after[i] == before[i]);
                                        assert(!slot(before, name@, i) || at < before.len());
                                    }
                                }
                                assert forall|i: int| 0 <= i < after.len() implies (
                                #[trigger] after[i]).is_named() by {
                                    if i != at {
                                        assert(after[i] == before[i]);
                                    }
                                }
                                assert forall|path: Seq<char>|
                                    pending_in(after, path) == listed_lines(next, path) by {
                                    if path == name@ {
                                        lemma_pending_at(after, at as int);
                                    } else {
                                        lemma_pending_elsewhere(before, after, at as int, path);
                                    }
                                }
                            }
                        },
                        Err(e) => {
                            proof {
                                lemma_first_stranger_of_prefix(entries@, k as int);
                            }
                            return Err(e);
                        },
                    }
                    k += 1;
                }
                proof {
                    assert(entries@.take(k as int) == entries@);
                }
                Ok(FileBacklog { dir: String::from_str(dir), archives })
            },
        }
    }

    /// The directory of the backlog.
    pub fn dir(&self) -> (dir: &String)
        ensures
            dir@ == self.directory(),
    {
        &self.dir
    }

    /// The names of the files in which entries wait, in the order of the
    /// archives: the files to read before `read_pending`.
    pub fn pending_paths(&self) -> (paths: Vec<String>)
        ensures
            texts(paths@) == waiting(self.archives()),
    {
        let mut paths: Vec<String> = Vec::new();
        let mut i: usize = 0;
        while i < self.archives.len()
            invariant
                i <= self.archives@.len(),
                texts(paths@) == waiting(self.archives@.take(i as int)),
            decreases self.archives@.len() - i,
        {
            proof {
                let ghost next = self.archives@.take(i as int + 1);
                assert(next.drop_last() == self.archives@.take(i as int));
                assert(next.last() == self.archives@[i as int]);
            }
            if self.archives[i].count > 0 {
                let ghost before = texts(paths@);
                paths.push(self.archives[i].path.clone());
                proof {
                    assert(texts(paths@) =~= before.push(self.archives@[i as int].path@));
                }
            }
            i += 1;
        }
        proof {
            assert(self.archives@.take(i as int) == self.archives@);
        }
        paths
    }

    /// Puts the measurements of `record`, written as entries, behind what
    /// waits for its destination, and says what has to be written to disk
    /// for that. `entries` holds one text for each measurement of the
    /// record, in order.
    ///
    /// The archive is the one of the file that is named after the
    /// destination; it is made where it does not exist. Nothing changes
    /// where the number of entries is not that of the measurements, where
    /// the name of the file does not lead back to the destination of the
    /// record, where an entry does not fit on one line, or where the
    /// archive would hold more entries than can be counted.
    pub fn write_pending(&mut self, record: &Record, entries: &Vec<String>) -> (r: InfluxResult<
        Append,
    >)
        ensures
            consistent(final(self).archives()),
            final(self).directory() == old(self).directory(),
            r is Ok <==> Self::accepts(old(self).archives(), record, texts(entries@)),
            r matches Ok(a) ==> {
                &&& a.path@ == record.archive_name()
                &&& a.block@ == frame(texts(entries@))
                &&& a.open_file == (old(self).state(record.archive_name()) != Some(
                    ArchiveState::Open,
                ))
                &&& final(self).state(record.archive_name()) == Some(ArchiveState::Open)
                &&& forall|path: Seq<char>|
                    final(self).pending(path) == old(self).pending(path) + if path
                        == record.archive_name() {
                        entries@.len()
                    } else {
                        0
                    }
            },
            r matches Err(e) ==> {
                &&& forall|path: Seq<char>| final(self).pending(path) == old(self).pending(path)
                &&& Self::refusal(old(self).archives(), record, texts(entries@), e)
            },
    {
        proof {
            use_type_invariant(&*self);
        }
        if entries.len() != record.measurements.len() {
            return Err(InfluxError::message("entries do not match the measurements"));
        }
        let path = ArchiveMeta::from_record(record).to_path();
        let ghost name = path@;
        let ghost before = self.archives@;
        match ArchiveMeta::from_path(path.as_str()) {
            Ok(back) => {
                proof {
                    Precision::law_code_round_trip(back.precision, record.precision);
                }
                if !back.is_of(record) {
                    return Err(
                        InfluxError::message("file name does not lead back to the destination"),
                    );
                }
            },
            Err(e) => {
                return Err(e);
            },
        }
        let mut archives: Vec<Archive> = Vec::new();
        std::mem::swap(&mut self.archives, &mut archives);
        assert(archives@ == before);
        let result = match Self::find(&archives, path.as_str()) {
            Some(at) => {
                proof {
                    lemma_pending_at(before, at as int);
                    assert(before[at as int].is_named());
                    assert(Precision::is_code(before[at as int].meta.precision.code()));
                }
                let result = archives[at].append(entries);
                proof {
                    let after = archives@;
                    assert forall|i: int| 0 <= i < after.len() implies (
                    #[trigger] after[i]).is_named() by {
                        if i != at {
                            assert(after[i] == before[i]);
                        }
                    }
                    assert forall|i: int, j: int|
                        0 <= i < after.len() && 0 <= j < after.len() && i != j implies (
                    #[trigger] after[i]).path@ != (#[trigger] after[j]).path@ by {
                        assert(after[i].path@ == before[i].path@);
                        assert(after[j].path@ == before[j].path@);
                    }
                    lemma_pending_at(after, at as int);
                    assert forall|p: Seq<char>| p != name implies pending_in(after, p)
                        == pending_in(before, p) by {
                        lemma_pending_elsewhere(before, after, at as int, p);
                    }
                }
                result
            },
            None => {
                proof {
                    assert(pending_in(before, name) == 0);
                    assert(state_in(before, name) is None);
                }
                match Archive::open(path.as_str(), 0) {
                    Ok(fresh) => {
                        let mut fresh = fresh;
                        let result = fresh.append(entries);
                        archives.push(fresh);
                        proof {
                            let after = archives@;
                            let at = before.len() as int;
                            assert forall|i: int| 0 <= i < after.len() implies (
                            #[trigger] after[i]).is_named() by {
                                if i != at {
                                    assert(after[i] == before[i]);
                                }
                            }
                            assert forall|i: int, j: int|
                                0 <= i < after.len() && 0 <= j < after.len() && i != j implies (
                            #[trigger] after[i]).path@ != (#[trigger] after[j]).path@ by {
                                if i != at && j != at {
                                    assert(after[i] == before[i]);
                                    assert(after[j] == before[j]);
                                } else if i == at {
                                    assert(after[j] == before[j]);
                                    assert(!slot(before, name, j));
                                } else {
                                    assert(after[i] == before[i]);
                                    assert(!slot(before, name, i));
                                }
                            }
                            lemma_pending_at(after, at);
                            assert forall|p: Seq<char>| p != name implies pending_in(after, p)
                                == pending_in(before, p) by {
                                lemma_pending_elsewhere(before, after, at, p);
                            }
                        }
                        result
                    },
                    Err(e) => Err(e),
                }
            },
        };
        self.archives = archives;
        result
    }

    /// Forgets what waits for the destination of `record`, and names the
    /// file that has to be removed for that. Where nothing waits for it,
    /// or where the name of its file does not lead back to it, nothing
    /// changes and no file is named.
    pub fn truncate_pending(&mut self, record: &Record) -> (remove: Option<String>)
        ensures
            consistent(final(self).archives()),
            final(self).directory() == old(self).directory(),
            remove is Some <==> old(self).pending(record.archive_name()) > 0
                && record.leads_back(),
            remove matches Some(path) ==> path@ == record.archive_name() && final(self).state(
                path@,
            ) == Some(ArchiveState::Removed),
            remove is None ==> final(self).archives() == old(self).archives(),
            forall|path: Seq<char>|
                final(self).pending(path) == if path == record.archive_name()
                    && record.leads_back() {
                    0
                } else {
                    old(self).pending(path)
                },
    {
        proof {
            use_type_invariant(&*self);
        }
        let path = ArchiveMeta::from_record(record).to_path();
        let ghost name = path@;
        let ghost before = self.archives@;
        match Self::find(&self.archives, path.as_str()) {
            Some(at) => {
                proof {
                    lemma_pending_at(before, at as int);
                    assert(before[at as int].is_named());
                    Precision::law_code_round_trip(before[at as int].meta.precision, record.precision);
                }
                if self.archives[at].count == 0 || !self.archives[at].meta.is_of(record) {
                    return None;
                }
                let mut archives: Vec<Archive> = Vec::new();
                std::mem::swap(&mut self.archives, &mut archives);
                assert(archives@ == before);
                archives[at].truncate();
                proof {
                    let after = archives@;
                    assert forall|i: int| 0 <= i < after.len() implies (
                    #[trigger] after[i]).is_named() by {
                        if i != at {
                            assert(after[i] == before[i]);
                        }
                    }
                    assert forall|i: int, j: int|
                        0 <= i < after.len() && 0 <= j < after.len() && i != j implies (
                    #[trigger] after[i]).path@ != (#[trigger] after[j]).path@ by {
                        assert(after[i].path@ == before[i].path@);
                        assert(after[j].path@ == before[j].path@);
                    }
                    lemma_pending_at(after, at as int);
                    assert forall|p: Seq<char>| p != name implies pending_in(after, p)
                        == pending_in(before, p) by {
                        lemma_pending_elsewhere(before, after, at as int, p);
                    }
                }
                self.archives = archives;
                Some(path)
            },
            None => {
                proof {
                    assert(pending_in(before, name) == 0);
                }
                None
            },
        }
    }

    /// The records that wait in the backlog, one for each archive with
    /// entries, in the order of the archives. `contents` holds, for each
    /// file that `pending_paths` names and in that order, the lines of the
    /// file as they decoded.
    ///
    /// Contents for another number of files than were named are refused.
    /// A line that did not decode fails the reading: the first such line of
    /// the first file that has one decides the error. The number of entries
    /// that wait in each file stays as it is. After a reading that succeeds
    /// every archive with entries is open and every other stands as it
    /// stood; after one that fails, some of them may have been opened.
    pub fn read_pending(&mut self, contents: Vec<Vec<InfluxResult<Measurement>>>) -> (r:
        InfluxResult<Vec<Record>>)
        ensures
            consistent(final(self).archives()),
            final(self).directory() == old(self).directory(),
            forall|path: Seq<char>| final(self).pending(path) == old(self).pending(path),
            contents@.len() != waiting(old(self).archives()).len() ==> (r matches Err(
                InfluxError::Error(m),
            ) && m@ == "files read do not match the files pending"@),
            contents@.len() == waiting(old(self).archives()).len() && first_damaged(contents@)
                < contents@.len() ==> r == Err::<Vec<Record>, InfluxError>(
                damage(contents@[first_damaged(contents@)]@),
            ),
            contents@.len() == waiting(old(self).archives()).len() && first_damaged(contents@)
                == contents@.len() ==> (r matches Ok(records) && assembled(
                old(self).archives(),
                contents@,
                records@,
            )),
            r is Ok ==> forall|path: Seq<char>|
                final(self).state(path) == if old(self).pending(path) > 0 {
                    Some(ArchiveState::Open)
                } else {
                    old(self).state(path)
                },
            r is Err ==> forall|path: Seq<char>|
                final(self).state(path) == old(self).state(path) || final(self).state(path)
                    == Some(ArchiveState::Open),
    {
        proof {
            use_type_invariant(&*self);
        }
        let ghost before = self.archives@;
        let ghost all = contents@;
        if contents.len() != self.pending_paths().len() {
            return Err(InfluxError::message("files read do not match the files pending"));
        }
        let mut rest = turned(contents);
        let mut archives: Vec<Archive> = Vec::new();
        std::mem::swap(&mut self.archives, &mut archives);
        assert(archives@ == before);
        let mut records: Vec<Record> = Vec::new();
        let mut failure: Option<InfluxError> = None;
        let mut i: usize = 0;
        let mut k: usize = 0;
        while i < archives.len() && failure.is_none()
            invariant
                i <= archives@.len(),
                archives@.len() == before.len(),
                consistent(before),
                all.len() == waiting(before).len(),
                forall|j: int|
                    0 <= j < before.len() ==> (#[trigger] archives@[j]).path == before[j].path
                        && archives@[j].meta == before[j].meta && archives@[j].count
                        == before[j].count,
                forall|j: int|
                    0 <= j < before.len() ==> (#[trigger] archives@[j]).state == before[j].state
                        || archives@[j].state == ArchiveState::Open,
                failure is None ==> forall|j: int|
                    0 <= j < before.len() ==> (#[trigger] archives@[j]).state == if j < i
                        && before[j].count > 0 {
                        ArchiveState::Open
                    } else {
                        before[j].state
                    },
                k <= all.len() <= usize::MAX,
                failure is None ==> k + rest@.len() == all.len(),
                forall|j: int| 0 <= j < rest@.len() ==> rest@[j] == all[all.len() - 1 - j],
                k == waiting(before.take(i as int)).len(),
                failure is None ==> first_damaged(all.take(k as int)) == k && assembled(
                    before.take(i as int),
                    all.take(k as int),
                    records@,
                ),
                failure matches Some(e) ==> first_damaged(all) < all.len() && e == damage(
                    all[first_damaged(all)]@,
                ),
            decreases archives@.len() - i, if failure is None { 1int } else { 0int },
        {
            proof {
                assert(before.take(i as int + 1).drop_last() == before.take(i as int));
                assert(before.take(i as int + 1).last() == before[i as int]);
                lemma_waiting_grows(before, i as int + 1);
                assert(before.take(before.len() as int) == before);
            }
            if archives[i].count > 0 {
                assert(rest@.len() > 0);
                let lines = rest.pop().unwrap();
                proof {
                    assert(lines == all[k as int]);
                    assert(all.take(k as int + 1).drop_last() == all.take(k as int));
                    assert(all.take(k as int + 1).last() == lines);
                    lemma_first_failure(lines@);
                }
                let ghost held = archives@;
                let answer = archives[i].record(lines);
                proof {
                    assert(archives@ == held.update(i as int, archives@[i as int]));
                }
                match answer {
                    Ok(Some(record)) => {
                        let ghost old_records = records@;
                        records.push(record);
                        proof {
                            assert(records@.drop_last() == old_records);
                            assert(before[i as int].holds(&record, lines@));
                        }
                        k += 1;
                        i += 1;
                    },
                    Ok(None) => {
                        assert(false);
                    },
                    Err(e) => {
                        proof {
                            lemma_first_damaged_of_prefix(all, k as int);
                        }
                        failure = Some(e);
                    },
                }
            } else {
                i += 1;
            }
        }
        proof {
            let after = archives@;
            assert forall|i: int| 0 <= i < after.len() implies (#[trigger] after[i]).is_named() by {
                assert(after[i].path == before[i].path);
                assert(before[i].is_named());
            }
            assert forall|i: int, j: int|
                0 <= i < after.len() && 0 <= j < after.len() && i != j implies (
            #[trigger] after[i]).path@ != (#[trigger] after[j]).path@ by {
                assert(after[i].path == before[i].path);
                assert(after[j].path == before[j].path);
            }
            assert forall|p: Seq<char>| pending_in(after, p) == pending_in(before, p) by {
                if exists|i: int| slot(after, p, i) {
                    let i = choose|i: int| slot(after, p, i);
                    assert(after[i].path == before[i].path);
                    assert(slot(before, p, i));
                    lemma_pending_at(before, i);
                } else if exists|i: int| slot(before, p, i) {
                    let i = choose|i: int| slot(before, p, i);
                    assert(after[i].path == before[i].path);
                    assert(slot(after, p, i));
                }
            }
            assert forall|p: Seq<char>|
                (state_in(after, p) == state_in(before, p) || state_in(after, p) == Some(
                    ArchiveState::Open,
                )) && (failure is None ==> state_in(after, p) == if pending_in(before, p) > 0 {
                    Some(ArchiveState::Open)
                } else {
                    state_in(before, p)
                }) by {
                if exists|j: int| slot(after, p, j) {
                    let j = choose|j: int| slot(after, p, j);
                    assert(after[j].path == before[j].path);
                    assert(slot(before, p, j));
                    lemma_pending_at(before, j);
                    lemma_pending_at(after, j);
                } else if exists|j: int| slot(before, p, j) {
                    let j = choose|j: int| slot(before, p, j);
                    assert(after[j].path == before[j].path);
                    assert(slot(after, p, j));
                }
            }
        }
        self.archives = archives;
        match failure {
            Some(e) => Err(e),
            None => {
                proof {
                    assert(before.take(i as int) == before);
                    assert(all.take(k as int) == all);
                }
                Ok(records)
            },
        }
    }

    /// Tells whether `write_pending` accepts the entries of a record.
    pub open spec fn accepts(archives: Seq<Archive>, record: &Record, entries: Seq<Seq<char>>) -> bool {
        &&& entries.len() == record.measurements@.len()
        &&& record.leads_back()
        &&& all_entries(entries)
        &&& pending_in(archives, record.archive_name()) + entries.len() <= usize::MAX
    }

    /// Tells whether `e` is the error with which `write_pending` refuses the
    /// entries of a record: the first of the five reasons that applies.
    pub open spec fn refusal(
        archives: Seq<Archive>,
        record: &Record,
        entries: Seq<Seq<char>>,
        e: InfluxError,
    ) -> bool {
        let name = record.archive_name();
        if entries.len() != record.measurements@.len() {
            e matches InfluxError::Error(m) && m@ == "entries do not match the measurements"@
        } else if !names_archive(name) {
            e matches InfluxError::Error(m) && m@ == if name_parts(name).len() < 3 {
                unnamed_text(name)
            } else {
                Precision::invalid_text(name_parts(name)[2])
            }
        } else if !record.leads_back() {
            e matches InfluxError::Error(m) && m@
                == "file name does not lead back to the destination"@
        } else if !all_entries(entries) {
            e matches InfluxError::Encoding(m) && m@ == "entry does not fit on one line"@
        } else {
            e matches InfluxError::Error(m) && m@ == "too many entries in archive"@
        }
    }
}

/// The count of an archive follows its file: where it was the number of
/// entries in the file before entries were written behind them, it is the
/// number of entries in the file afterwards.
pub proof fn law_count_follows_file(content: Seq<char>, entries: Seq<Seq<char>>, count: nat)
    requires
        is_closed(content),
        all_entries(entries),
        count == archive_lines(content).len(),
    ensures
        archive_lines(content + frame(entries)).len() == count + entries.len(),
{
    law_append_keeps_lines(content, entries);
}

/// Nothing is lost over a restart. Entries that were written behind the
/// content of an archive file are on disk as its last lines, in order. A
/// backlog that is opened afterwards on a directory which lists the file
/// with its lines counts the file among those to read, so that
/// `read_pending` hands the entries out again.
pub proof fn law_spill_survives_restart(
    content: Seq<char>,
    entries: Seq<Seq<char>>,
    name: Seq<char>,
    listing: Seq<DirEntry>,
    archives: Seq<Archive>,
)
    requires
        is_closed(content),
        all_entries(entries),
        entries.len() > 0,
        listed_lines(listing, name) == archive_lines(
            content + frame(entries),
        ).len(),
        consistent(archives),
        forall|path: Seq<char>| pending_in(archives, path) == listed_lines(listing, path),
    ensures
        archive_lines(content + frame(entries))
            == archive_lines(content) + entries,
        waiting(archives).contains(name),
{
    law_append_keeps_lines(content, entries);
    lemma_pending_is_waiting(archives, name);
}

} // verus!
