//! The names of archive files: how a destination gives the name of its
//! file, and how the name of a file leads back to a destination.

use vstd::prelude::*;
use vstd::string::StrSliceExecFns;
use vstd::string::StringExecFns;

use crate::error::InfluxError;
use crate::error::InfluxResult;
use crate::precision::Precision;
use crate::record::Record;
use crate::text::chars_of;
use crate::text::compare;
use crate::text::lemma_split_push;
use crate::text::lemma_split_whole;
use crate::text::split;
use crate::text::split_text;
use crate::text::texts;
use crate::text::Order;

verus! {

/// The position of the last dot of `name`, or -1 where it has none.
pub open spec fn last_dot(name: Seq<char>) -> int
    decreases name.len(),
{
    if name.len() == 0 {
        -1
    } else if name.last() == '.' {
        name.len() - 1
    } else {
        last_dot(name.drop_last())
    }
}

/// The name of a file without its extension: what stands before the last
/// dot, unless that dot is the first character.
pub open spec fn stem(name: Seq<char>) -> Seq<char> {
    if last_dot(name) > 0 {
        name.take(last_dot(name))
    } else {
        name
    }
}

/// The name of the archive file of a destination:
/// `{org}_{bucket}_{precision}.log`.
pub open spec fn archive_name(org: Seq<char>, bucket: Seq<char>, precision: Precision) -> Seq<
    char,
> {
    org + seq!['_'] + bucket + seq!['_'] + precision.code() + seq!['.', 'l', 'o', 'g']
}

/// The text of the error for a file name that has fewer than three parts.
pub open spec fn unnamed_text(name: Seq<char>) -> Seq<char> {
    "Could not determine name from path: "@ + name
}

/// The parts of a file name that say where an archive belongs: the pieces
/// of its stem between underscores.
pub open spec fn name_parts(name: Seq<char>) -> Seq<Seq<char>> {
    split(stem(name), '_')
}

/// Tells whether a file name names an archive: its stem has at least three
/// parts, and the third is the code of a precision.
pub open spec fn names_archive(name: Seq<char>) -> bool {
    name_parts(name).len() >= 3 && Precision::is_code(name_parts(name)[2])
}

/// The destination of an archive: organization, bucket and precision.
#[derive(Debug, PartialEq, Eq)]
pub struct ArchiveMeta {
    pub org: String,
    pub bucket: String,
    pub precision: Precision,
}

impl ArchiveMeta {
    /// Tells whether this is the destination that the file name `name`
    /// stands for: the first three parts of its stem.
    pub open spec fn named_by(&self, name: Seq<char>) -> bool {
        &&& name_parts(name).len() >= 3
        &&& self.org@ == name_parts(name)[0]
        &&& self.bucket@ == name_parts(name)[1]
        &&& self.precision.code() == name_parts(name)[2]
    }

    /// The name of the archive file of this destination.
    pub open spec fn file_name(&self) -> Seq<char> {
        archive_name(self.org@, self.bucket@, self.precision)
    }

    /// Tells whether this is the destination of `record`.
    pub fn is_of(&self, record: &Record) -> (same: bool)
        ensures
            same == (self.org@ == record.org@ && self.bucket@ == record.bucket@ && self.precision
                == record.precision),
    {
        compare(self.org.as_str(), record.org.as_str()) == Order::Equal && compare(
            self.bucket.as_str(),
            record.bucket.as_str(),
        ) == Order::Equal && self.precision == record.precision
    }

    /// The destination of a record.
    pub fn from_record(record: &Record) -> (meta: Self)
        ensures
            meta.org@ == record.org@,
            meta.bucket@ == record.bucket@,
            meta.precision == record.precision,
    {
        Self {
            org: record.org.clone(),
            bucket: record.bucket.clone(),
            precision: record.precision,
        }
    }

    /// Reads a destination back from the name of an archive file. A name
    /// with fewer than three parts, or with a third part that is no
    /// precision, is refused.
    pub fn from_path(name: &str) -> (r: InfluxResult<Self>)
        ensures
            r is Ok <==> names_archive(name@),
            r matches Ok(meta) ==> meta.named_by(name@),
            r matches Err(e) ==> (e matches InfluxError::Error(m) && m@ == if name_parts(
                name@,
            ).len() < 3 {
                unnamed_text(name@)
            } else {
                Precision::invalid_text(name_parts(name@)[2])
            }),
    {
        let stem = file_stem(name);
        let mut parts = split_text(stem, '_');
        if parts.len() < 3 {
            let mut msg = String::from_str("Could not determine name from path: ");
            msg.append(name);
            Err(InfluxError::Error(msg))
        } else {
            proof {
                assert(texts(parts@)[0] == parts@[0]@);
                assert(texts(parts@)[1] == parts@[1]@);
                assert(texts(parts@)[2] == parts@[2]@);
            }
            match Precision::parse(parts[2].as_str()) {
                Ok(precision) => {
                    let bucket = parts.swap_remove(1);
                    let org = parts.swap_remove(0);
                    Ok(ArchiveMeta { org, bucket, precision })
                },
                Err(e) => Err(e),
            }
        }
    }

    /// The name of the archive file of this destination.
    pub fn to_path(&self) -> (name: String)
        ensures
            name@ == self.file_name(),
    {
        proof {
            reveal_strlit("_");
            reveal_strlit(".log");
        }
        let mut name = String::from_str(self.org.as_str());
        name.append("_");
        name.append(self.bucket.as_str());
        name.append("_");
        name.append(self.precision.as_str());
        name.append(".log");
        proof {
            assert(".log"@ =~= seq!['.', 'l', 'o', 'g']);
            assert("_"@ =~= seq!['_']);
        }
        name
    }
}

impl Record {
    /// The name of the archive file of the destination of this record.
    pub open spec fn archive_name(&self) -> Seq<char> {
        archive_name(self.org@, self.bucket@, self.precision)
    }

    /// Tells whether the name of the archive file of this record leads
    /// back to its destination: the first three parts of the name are its
    /// organization, its bucket and the code of its precision.
    pub open spec fn leads_back(&self) -> bool {
        &&& name_parts(self.archive_name()).len() >= 3
        &&& name_parts(self.archive_name())[0] == self.org@
        &&& name_parts(self.archive_name())[1] == self.bucket@
        &&& name_parts(self.archive_name())[2] == self.precision.code()
    }
}

/// The name of the archive file of a record without underscores in
/// organization and bucket leads back to its destination.
pub proof fn law_plain_destinations_lead_back(record: &Record)
    requires
        !record.org@.contains('_'),
        !record.bucket@.contains('_'),
    ensures
        record.leads_back(),
{
    law_archive_name_round_trip(record.org@, record.bucket@, record.precision);
}

/// The name of a file without its extension.
fn file_stem(name: &str) -> (s: &str)
    ensures
        s@ == stem(name@),
{
    let chars = chars_of(name);
    let mut i: usize = chars.len();
    proof {
        assert(name@.take(i as int) == name@);
    }
    while i > 0
        invariant
            i <= chars.len(),
            chars@ == name@,
            last_dot(name@) == last_dot(name@.take(i as int)),
        decreases i,
    {
        proof {
            assert(name@.take(i as int).drop_last() == name@.take(i as int - 1));
        }
        if chars[i - 1] == '.' {
            if i - 1 > 0 {
                return name.substring_char(0, i - 1);
            } else {
                proof {
                    assert(name@.subrange(0, name@.len() as int) == name@);
                }
                return name;
            }
        }
        i -= 1;
    }
    name
}

/// The last dot of a name that ends in `.log` is the dot of that ending.
proof fn lemma_last_dot_of_log(front: Seq<char>)
    ensures
        last_dot(front + seq!['.', 'l', 'o', 'g']) == front.len(),
{
    let n0 = front + seq!['.', 'l', 'o', 'g'];
    let n1 = n0.drop_last();
    let n2 = n1.drop_last();
    let n3 = n2.drop_last();
    assert(n0.last() == 'g');
    assert(n1.last() == 'o');
    assert(n2.last() == 'l');
    assert(n3.last() == '.');
    assert(last_dot(n3) == front.len());
    assert(last_dot(n2) == last_dot(n3));
    assert(last_dot(n1) == last_dot(n2));
}

/// The name of an archive file leads back to its destination, where neither
/// the organization nor the bucket holds an underscore: the parts of the
/// name are the organization, the bucket and the code of the precision.
pub proof fn law_archive_name_round_trip(org: Seq<char>, bucket: Seq<char>, precision: Precision)
    requires
        !org.contains('_'),
        !bucket.contains('_'),
    ensures
        name_parts(archive_name(org, bucket, precision)) == seq![org, bucket, precision.code()],
        names_archive(archive_name(org, bucket, precision)),
{
    let code = precision.code();
    let front = org + seq!['_'] + bucket + seq!['_'] + code;
    let name = archive_name(org, bucket, precision);
    lemma_last_dot_of_log(front);
    assert(front.len() > 0);
    assert(name.take(front.len() as int) =~= front);
    assert(stem(name) == front);
    assert(!code.contains('_')) by {
        match precision {
            Precision::Nanoseconds => {},
            Precision::Microseconds => {},
            Precision::Milliseconds => {},
            Precision::Seconds => {},
            Precision::Minutes => {},
            Precision::Hours => {},
        }
    }
    lemma_split_whole(org, '_');
    lemma_split_push(org, bucket, '_');
    lemma_split_push(org + seq!['_'] + bucket, code, '_');
    assert(seq![org].push(bucket).push(code) =~= seq![org, bucket, code]);
    Precision::law_code_round_trip(precision, precision);
}

/// Two destinations without underscores in organization and bucket have
/// the same archive file only where they are the same destination.
pub proof fn law_archive_names_differ(
    org1: Seq<char>,
    bucket1: Seq<char>,
    precision1: Precision,
    org2: Seq<char>,
    bucket2: Seq<char>,
    precision2: Precision,
)
    requires
        !org1.contains('_'),
        !bucket1.contains('_'),
        !org2.contains('_'),
        !bucket2.contains('_'),
        archive_name(org1, bucket1, precision1) == archive_name(org2, bucket2, precision2),
    ensures
        org1 == org2,
        bucket1 == bucket2,
        precision1 == precision2,
{
    law_archive_name_round_trip(org1, bucket1, precision1);
    law_archive_name_round_trip(org2, bucket2, precision2);
    let a = seq![org1, bucket1, precision1.code()];
    let b = seq![org2, bucket2, precision2.code()];
    assert(a == b);
    assert(a[0] == b[0]);
    assert(a[1] == b[1]);
    assert(a[2] == b[2]);
    Precision::law_code_round_trip(precision1, precision2);
}

/// Partitions are apart: two records for different destinations, without
/// underscores in organization and bucket, have different archive files.
pub proof fn law_partitions_are_apart(a: &Record, b: &Record)
    requires
        !a.org@.contains('_'),
        !a.bucket@.contains('_'),
        !b.org@.contains('_'),
        !b.bucket@.contains('_'),
        a.org@ != b.org@ || a.bucket@ != b.bucket@ || a.precision != b.precision,
    ensures
        a.archive_name() != b.archive_name(),
{
    if a.archive_name() == b.archive_name() {
        law_archive_names_differ(
            a.org@,
            a.bucket@,
            a.precision,
            b.org@,
            b.bucket@,
            b.precision,
        );
    }
}

} // verus!
