//! A record: the measurements that go to one destination in one request.

use vstd::prelude::*;
use vstd::string::StringExecFns;

use crate::error::InfluxError;
use crate::error::InfluxResult;
use crate::measurement::Measurement;
use crate::precision::Precision;
use crate::text::join;

verus! {

/// Measurements bound for one organization and bucket, with the precision of
/// their timestamps.
#[derive(Debug, Clone, PartialEq, Eq)]
pub struct Record {
    pub org: String,
    pub bucket: String,
    pub precision: Precision,
    pub measurements: Vec<Measurement>,
}

impl Record {
    /// The lines of the measurements, in the order in which they were added.
    pub open spec fn lines(&self) -> Seq<Seq<char>> {
        Seq::new(self.measurements@.len(), |i: int| self.measurements@[i].line(self.precision))
    }

    /// The body of a write request: the lines, separated by line feeds.
    pub open spec fn line_buffer(&self) -> Seq<char> {
        join(self.lines(), seq!['\n'])
    }

    /// Tells whether every measurement of the record can be sent.
    pub open spec fn is_valid(&self) -> bool {
        forall|i: int| 0 <= i < self.measurements@.len() ==> (#[trigger] self.measurements@[i]).is_valid()
    }

    /// The descriptions of the measurements, in order.
    pub open spec fn notes(&self) -> Seq<Seq<char>> {
        Seq::new(
            self.measurements@.len(),
            |i: int| self.measurements@[i].description(self.precision),
        )
    }

    /// The description of the record for a reader.
    pub open spec fn description(&self) -> Seq<char> {
        "Record(org="@ + self.org@ + ", bucket="@ + self.bucket@ + ", precision="@
            + self.precision.code() + ")\n"@ + join(self.notes(), seq!['\n'])
    }

    /// The position of the first measurement that cannot be sent, or the
    /// number of measurements where each can.
    pub open spec fn first_defect(&self) -> int {
        first_invalid(self.measurements@)
    }

    /// An empty record for the given destination, at the default precision.
    pub fn new(org: &str, bucket: &str) -> (r: Self)
        ensures
            r.org@ == org@,
            r.bucket@ == bucket@,
            r.precision == Precision::Nanoseconds,
            r.measurements@.len() == 0,
    {
        Self {
            org: String::from_str(org),
            bucket: String::from_str(bucket),
            precision: Precision::Nanoseconds,
            measurements: Vec::new(),
        }
    }

    /// The same record at the given precision.
    pub fn precision(self, precision: Precision) -> (r: Self)
        ensures
            r.precision == precision,
            r.org == self.org,
            r.bucket == self.bucket,
            r.measurements == self.measurements,
    {
        let mut r = self;
        r.precision = precision;
        r
    }

    /// Adds a measurement of the given name to the end of the record and
    /// hands it out for tags and fields to be put into it.
    pub fn measurement(&mut self, name: &str) -> (m: &mut Measurement)
        ensures
            m.name@ == name@,
            m.tags.count() == 0,
            m.fields.count() == 0,
            m.timestamp is None,
            final(self).org == old(self).org,
            final(self).bucket == old(self).bucket,
            final(self).precision == old(self).precision,
            final(self).measurements@ == old(self).measurements@.push(*final(m)),
    {
        self.measurements.push(Measurement::new(name));
        let n = self.measurements.len();
        &mut self.measurements[n - 1]
    }

    /// The measurements of the record, in the order in which they were added.
    pub fn measurements(&self) -> (v: &Vec<Measurement>)
        ensures
            *v == self.measurements,
    {
        &self.measurements
    }

    /// Renders each measurement as a line, in order.
    pub fn to_lines(&self) -> (lines: Vec<String>)
        ensures
            crate::text::texts(lines@) == self.lines(),
    {
        let mut lines: Vec<String> = Vec::new();
        let mut i: usize = 0;
        while i < self.measurements.len()
            invariant
                i <= self.measurements@.len(),
                crate::text::texts(lines@) == self.lines().take(i as int),
            decreases self.measurements@.len() - i,
        {
            let line = self.measurements[i].to_line(&self.precision);
            let ghost before = crate::text::texts(lines@);
            lines.push(line);
            proof {
                assert(crate::text::texts(lines@) =~= before.push(line@));
                assert(self.lines()[i as int] == line@);
                assert(before.push(line@) =~= self.lines().take(i as int + 1));
            }
            i += 1;
        }
        proof {
            assert(self.lines().take(i as int) == self.lines());
        }
        lines
    }

    /// Renders the record as the body of a write request.
    pub fn to_line_buffer(&self) -> (buffer: String)
        ensures
            buffer@ == self.line_buffer(),
    {
        proof {
            reveal_strlit("\n");
            assert("\n"@ =~= seq!['\n']);
        }
        crate::text::join_texts(&self.to_lines(), "\n")
    }

    /// Describes the record for a reader: the destination on a line of its
    /// own, then each measurement on a line.
    pub fn to_string(&self) -> (text: String)
        ensures
            text@ == self.description(),
    {
        let mut notes: Vec<String> = Vec::new();
        let mut i: usize = 0;
        while i < self.measurements.len()
            invariant
                i <= self.measurements@.len(),
                crate::text::texts(notes@) == self.notes().take(i as int),
            decreases self.measurements@.len() - i,
        {
            let note = self.measurements[i].describe(&self.precision);
            let ghost before = crate::text::texts(notes@);
            notes.push(note);
            proof {
                assert(crate::text::texts(notes@) =~= before.push(note@));
                assert(before.push(note@) =~= self.notes().take(i as int + 1));
            }
            i += 1;
        }
        proof {
            reveal_strlit("\n");
            assert("\n"@ =~= seq!['\n']);
            assert(self.notes().take(i as int) == self.notes());
        }
        let mut text = String::from_str("Record(org=");
        text.append(self.org.as_str());
        text.append(", bucket=");
        text.append(self.bucket.as_str());
        text.append(", precision=");
        text.append(self.precision.as_str());
        text.append(")\n");
        text.append(crate::text::join_texts(&notes, "\n").as_str());
        text
    }

    /// Tells whether every measurement of the record can be sent; the
    /// first that cannot decides the error.
    pub fn check(&self) -> (r: InfluxResult<()>)
        ensures
            r is Ok <==> self.is_valid(),
            self.is_valid() <==> self.first_defect() == self.measurements@.len(),
            r matches Err(e) ==> (e matches InfluxError::Encoding(m) && m@
                == self.measurements@[self.first_defect()].defect()),
    {
        let mut i: usize = 0;
        while i < self.measurements.len()
            invariant
                i <= self.measurements@.len(),
                first_invalid(self.measurements@.take(i as int)) == i,
                forall|j: int| 0 <= j < i ==> (#[trigger] self.measurements@[j]).is_valid(),
            decreases self.measurements@.len() - i,
        {
            proof {
                let ghost next = self.measurements@.take(i as int + 1);
                assert(next.drop_last() == self.measurements@.take(i as int));
                assert(next.last() == self.measurements@[i as int]);
            }
            match self.measurements[i].check() {
                Ok(()) => {},
                Err(e) => {
                    proof {
                        lemma_first_invalid_of_prefix(self.measurements@, i as int);
                    }
                    return Err(e);
                },
            }
            i += 1;
        }
        proof {
            assert(self.measurements@.take(i as int) == self.measurements@);
        }
        Ok(())
    }
}

/// The position of the first measurement that cannot be sent, or the number
/// of measurements where each can.
pub open spec fn first_invalid(measurements: Seq<Measurement>) -> int
    decreases measurements.len(),
{
    if measurements.len() == 0 {
        0
    } else if first_invalid(measurements.drop_last()) < measurements.len() - 1 {
        first_invalid(measurements.drop_last())
    } else if !measurements.last().is_valid() {
        measurements.len() - 1
    } else {
        measurements.len() as int
    }
}

/// An invalid measurement at position `i` behind valid ones is the first
/// invalid measurement of the whole.
pub proof fn lemma_first_invalid_of_prefix(measurements: Seq<Measurement>, i: int)
    requires
        0 <= i < measurements.len(),
        first_invalid(measurements.take(i)) == i,
        !measurements[i].is_valid(),
    ensures
        first_invalid(measurements) == i,
    decreases measurements.len(),
{
    if measurements.len() == i + 1 {
        assert(measurements.drop_last() == measurements.take(i));
    } else {
        let front = measurements.drop_last();
        assert(front.take(i) == measurements.take(i));
        lemma_first_invalid_of_prefix(front, i);
    }
}

} // verus!
