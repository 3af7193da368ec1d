//! One archive: the file of one destination, with the number of entries
//! that wait in it and the state of the file.

use vstd::prelude::*;
use vstd::string::StringExecFns;

use crate::backlogging::framing::fits_one_line;
use crate::backlogging::framing::frame;
use crate::backlogging::framing::frame_lines;
use crate::backlogging::framing::is_entry;
use crate::backlogging::naming::name_parts;
use crate::backlogging::naming::names_archive;
use crate::backlogging::naming::unnamed_text;
use crate::backlogging::naming::ArchiveMeta;
use crate::error::InfluxError;
use crate::error::InfluxResult;
use crate::measurement::Measurement;
use crate::precision::Precision;
use crate::record::Record;
use crate::text::texts;

verus! {

/// Where an archive stands: not yet touched, open, or removed from disk.
#[derive(Debug, Clone, Copy, PartialEq, Eq, Structural)]
pub enum ArchiveState {
    Unopened,
    Open,
    Removed,
}

/// One archive: its file, the destination that the name of the file stands
/// for, and the number of entries that wait in it.
#[derive(Debug, PartialEq, Eq)]
pub struct Archive {
    pub path: String,
    pub meta: ArchiveMeta,
    pub state: ArchiveState,
    pub count: usize,
}

/// What has to be written to disk after entries were put into an archive.
#[derive(Debug, PartialEq, Eq)]
pub struct Append {
    /// The name of the archive file.
    pub path: String,
    /// Whether the file has to be opened first, and made where it does not
    /// exist.
    pub open_file: bool,
    /// The text to write to the end of the file, and to flush.
    pub block: String,
}

/// Tells whether each of the texts can be one entry of an archive.
pub open spec fn all_entries(entries: Seq<Seq<char>>) -> bool {
    forall|i: int| 0 <= i < entries.len() ==> is_entry(#[trigger] entries[i])
}

/// The position of the first line that did not decode, or the number of
/// lines where all of them did.
pub open spec fn first_failure(decoded: Seq<InfluxResult<Measurement>>) -> int
    decreases decoded.len(),
{
    if decoded.len() == 0 {
        0
    } else if first_failure(decoded.drop_last()) < decoded.len() - 1 {
        first_failure(decoded.drop_last())
    } else if decoded.last() is Err {
        decoded.len() - 1
    } else {
        decoded.len() as int
    }
}

/// The measurements of lines that all decoded.
pub open spec fn decoded_all(decoded: Seq<InfluxResult<Measurement>>) -> Seq<Measurement> {
    Seq::new(decoded.len(), |i: int| decoded[i]->Ok_0)
}

/// The first failure is a failure, and no line before it is one.
pub proof fn lemma_first_failure(decoded: Seq<InfluxResult<Measurement>>)
    ensures
        0 <= first_failure(decoded) <= decoded.len(),
        first_failure(decoded) < decoded.len() ==> decoded[first_failure(decoded)] is Err,
        forall|i: int| 0 <= i < first_failure(decoded) ==> (#[trigger] decoded[i]) is Ok,
    decreases decoded.len(),
{
    if decoded.len() > 0 {
        let front = decoded.drop_last();
        lemma_first_failure(front);
        assert forall|i: int| 0 <= i < first_failure(decoded) implies (
        #[trigger] decoded[i]) is Ok by {
            if i < front.len() {
                assert(front[i] == decoded[i]);
            }
        }
    }
}

/// A failure at position `i` behind lines that all decoded is the first
/// failure of the whole.
pub proof fn lemma_first_failure_of_prefix(decoded: Seq<InfluxResult<Measurement>>, i: int)
    requires
        0 <= i < decoded.len(),
        first_failure(decoded.take(i)) == i,
        decoded[i] is Err,
    ensures
        first_failure(decoded) == i,
    decreases decoded.len(),
{
    if decoded.len() == i + 1 {
        assert(decoded.drop_last() == decoded.take(i));
    } else {
        let front = decoded.drop_last();
        assert(front.take(i) == decoded.take(i));
        lemma_first_failure_of_prefix(front, i);
    }
}

/// The items in the opposite order, so that they can be taken from the end
/// in their own order.
pub fn turned<T>(items: Vec<T>) -> (rest: Vec<T>)
    ensures
        rest@.len() == items@.len(),
        forall|j: int| 0 <= j < rest@.len() ==> rest@[j] == items@[items@.len() - 1 - j],
{
    let ghost all = items@;
    let mut items = items;
    let mut rest: Vec<T> = Vec::new();
    while items.len() > 0
        invariant
            rest@.len() + items@.len() == all.len(),
            items@ == all.take(items@.len() as int),
            forall|j: int| 0 <= j < rest@.len() ==> rest@[j] == all[all.len() - 1 - j],
        decreases items@.len(),
    {
        let last = items.pop().unwrap();
        rest.push(last);
    }
    rest
}

impl Archive {
    /// Tells whether the destination of the archive is the one that the
    /// name of its file stands for.
    pub open spec fn is_named(&self) -> bool {
        self.meta.named_by(self.path@)
    }

    /// Tells whether `record` is what this archive holds, given its lines
    /// as they decoded.
    pub open spec fn holds(&self, record: &Record, decoded: Seq<InfluxResult<Measurement>>) -> bool {
        &&& record.org@ == self.meta.org@
        &&& record.bucket@ == self.meta.bucket@
        &&& record.precision == self.meta.precision
        &&& record.measurements@ == decoded_all(decoded)
    }

    /// The archive of a file that was found on disk with `lines` lines, or
    /// that is to be made, with none. Its destination is read from the name
    /// of the file; a name that names no archive is refused.
    pub fn open(path: &str, lines: usize) -> (r: InfluxResult<Self>)
        ensures
            r is Ok <==> names_archive(path@),
            r matches Ok(a) ==> a.path@ == path@ && a.is_named() && a.count == lines && a.state
                == ArchiveState::Unopened,
            r matches Err(e) ==> (e matches InfluxError::Error(m) && m@ == if name_parts(
                path@,
            ).len() < 3 {
                unnamed_text(path@)
            } else {
                Precision::invalid_text(name_parts(path@)[2])
            }),
    {
        match ArchiveMeta::from_path(path) {
            Ok(meta) => Ok(
                Archive {
                    path: String::from_str(path),
                    meta,
                    state: ArchiveState::Unopened,
                    count: lines,
                },
            ),
            Err(e) => Err(e),
        }
    }

    /// Makes the archive ready for reading or writing, and tells whether its
    /// file has to be opened for that: it has, unless it is open already. The
    /// file is made where it does not exist.
    pub fn prepare_handle(&mut self) -> (open_file: bool)
        ensures
            open_file == (old(self).state != ArchiveState::Open),
            final(self).state == ArchiveState::Open,
            final(self).path == old(self).path,
            final(self).meta == old(self).meta,
            final(self).count == old(self).count,
    {
        let open_file = match self.state {
            ArchiveState::Open => false,
            _ => true,
        };
        self.state = ArchiveState::Open;
        open_file
    }

    /// The record that waits in the archive, from the lines of its file as
    /// they decoded.
    ///
    /// An archive without entries gives no record and is left as it is,
    /// whatever is handed in. Otherwise the archive is open afterwards; the
    /// first line that did not decode fails the whole reading with its
    /// error, and where all decoded, the record holds their measurements in
    /// order, under the destination of the archive.
    pub fn record(&mut self, decoded: Vec<InfluxResult<Measurement>>) -> (r: InfluxResult<
        Option<Record>,
    >)
        ensures
            final(self).path == old(self).path,
            final(self).meta == old(self).meta,
            final(self).count == old(self).count,
            old(self).count == 0 ==> (r matches Ok(None)) && final(self).state == old(self).state,
            old(self).count > 0 ==> final(self).state == ArchiveState::Open,
            old(self).count > 0 && first_failure(decoded@) < decoded@.len() ==> r == Err::<
                Option<Record>,
                InfluxError,
            >(decoded@[first_failure(decoded@)]->Err_0),
            old(self).count > 0 && first_failure(decoded@) == decoded@.len() ==> (r matches Ok(
                Some(record),
            ) && old(self).holds(&record, decoded@)),
    {
        if self.count == 0 {
            return Ok(None);
        }
        self.prepare_handle();
        let mut measurements: Vec<Measurement> = Vec::new();
        let ghost all = decoded@;
        let mut rest = turned(decoded);
        let mut i: usize = 0;
        let n = rest.len();
        while rest.len() > 0
            invariant
                self.path == old(self).path,
                self.meta == old(self).meta,
                self.count == old(self).count,
                self.state == ArchiveState::Open,
                old(self).count > 0,
                all == decoded@,
                n == all.len(),
                i + rest@.len() == n,
                forall|j: int| 0 <= j < rest@.len() ==> rest@[j] == all[all.len() - 1 - j],
                measurements@ == decoded_all(all.take(i as int)),
                first_failure(all.take(i as int)) == i,
            decreases rest@.len(),
        {
            let next = rest.pop().unwrap();
            proof {
                assert(next == all[i as int]);
                assert(all.take(i as int + 1).drop_last() == all.take(i as int));
                assert(all.take(i as int + 1).last() == next);
            }
            match next {
                Ok(m) => {
                    measurements.push(m);
                    proof {
                        assert(measurements@ =~= decoded_all(all.take(i as int + 1)));
                    }
                },
                Err(e) => {
                    proof {
                        lemma_first_failure_of_prefix(all, i as int);
                    }
                    return Err(e);
                },
            }
            i += 1;
        }
        proof {
            assert(all.take(i as int) == all);
        }
        Ok(
            Some(
                Record {
                    org: self.meta.org.clone(),
                    bucket: self.meta.bucket.clone(),
                    precision: self.meta.precision,
                    measurements,
                },
            ),
        )
    }

    /// Puts entries behind those that wait in the archive, and says what
    /// has to be written to the end of its file for that.
    ///
    /// An entry that does not fit on one line is refused, and so are more
    /// entries than can be counted; the archive is then left as it is.
    pub fn append(&mut self, entries: &Vec<String>) -> (r: InfluxResult<Append>)
        ensures
            final(self).path == old(self).path,
            final(self).meta == old(self).meta,
            r is Ok <==> all_entries(texts(entries@)) && old(self).count + entries@.len()
                <= usize::MAX,
            r matches Ok(a) ==> {
                &&& a.path@ == old(self).path@
                &&& a.open_file == (old(self).state != ArchiveState::Open)
                &&& a.block@ == frame(texts(entries@))
                &&& final(self).count == old(self).count + entries@.len()
                &&& final(self).state == ArchiveState::Open
            },
            r matches Err(e) ==> {
                &&& *final(self) == *old(self)
                &&& if !all_entries(texts(entries@)) {
                    e matches InfluxError::Encoding(m) && m@ == "entry does not fit on one line"@
                } else {
                    e matches InfluxError::Error(m) && m@ == "too many entries in archive"@
                }
            },
    {
        let mut i: usize = 0;
        while i < entries.len()
            invariant
                i <= entries@.len(),
                forall|j: int| 0 <= j < i ==> is_entry(#[trigger] texts(entries@)[j]),
            decreases entries@.len() - i,
        {
            if !fits_one_line(entries[i].as_str()) {
                proof {
                    assert(!is_entry(texts(entries@)[i as int]));
                }
                return Err(
                    InfluxError::Encoding(String::from_str("entry does not fit on one line")),
                );
            }
            i += 1;
        }
        match self.count.checked_add(entries.len()) {
            Some(count) => {
                let open_file = self.prepare_handle();
                self.count = count;
                Ok(Append { path: self.path.clone(), open_file, block: frame_lines(entries) })
            },
            None => Err(InfluxError::message("too many entries in archive")),
        }
    }

    /// Forgets the entries of the archive, and tells whether its file has
    /// to be removed for that. An archive without entries is left as it is,
    /// and so is its file.
    pub fn truncate(&mut self) -> (remove_file: bool)
        ensures
            remove_file == (old(self).count > 0),
            final(self).path == old(self).path,
            final(self).meta == old(self).meta,
            final(self).count == 0,
            final(self).state == if old(self).count > 0 {
                ArchiveState::Removed
            } else {
                old(self).state
            },
    {
        if self.count == 0 {
            false
        } else {
            self.state = ArchiveState::Removed;
            self.count = 0;
            true
        }
    }
}

} // verus!
