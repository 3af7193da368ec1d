//! Time precision of a record.

use vstd::prelude::*;
use vstd::string::StringExecFns;

use crate::error::InfluxError;
use crate::error::InfluxResult;
use crate::text::compare;
use crate::text::Order;

verus! {

/// The unit in which the timestamps of a record are sent.
#[derive(Debug, Clone, Copy, PartialEq, Eq, Structural)]
pub enum Precision {
    Nanoseconds,
    Microseconds,
    Milliseconds,
    Seconds,
    Minutes,
    Hours,
}

impl Precision {
    /// The short code of the precision, as it stands in requests and in the
    /// names of archive files.
    pub open spec fn code(self) -> Seq<char> {
        match self {
            Precision::Nanoseconds => seq!['n', 's'],
            Precision::Microseconds => seq!['u', 's'],
            Precision::Milliseconds => seq!['m', 's'],
            Precision::Seconds => seq!['s'],
            Precision::Minutes => seq!['m'],
            Precision::Hours => seq!['h'],
        }
    }

    /// Tells whether `s` is the code of some precision.
    pub open spec fn is_code(s: Seq<char>) -> bool {
        exists|p: Precision| s == p.code()
    }

    /// The text of the error for a code that names no precision.
    pub open spec fn invalid_text(s: Seq<char>) -> Seq<char> {
        "Invalid precision: "@ + s
    }

    /// The short code of the precision as a static string.
    pub fn as_str(&self) -> (s: &'static str)
        ensures
            s@ == self.code(),
    {
        proof {
            reveal_strlit("ns");
            reveal_strlit("us");
            reveal_strlit("ms");
            reveal_strlit("s");
            reveal_strlit("m");
            reveal_strlit("h");
        }
        match self {
            Precision::Nanoseconds => "ns",
            Precision::Microseconds => "us",
            Precision::Milliseconds => "ms",
            Precision::Seconds => "s",
            Precision::Minutes => "m",
            Precision::Hours => "h",
        }
    }

    /// The short code of the precision.
    pub fn to_string(&self) -> (s: String)
        ensures
            s@ == self.code(),
    {
        String::from_str(self.as_str())
    }

    /// Reads a precision from its short code. Any other text is refused with
    /// a message that names it.
    pub fn parse(s: &str) -> (r: InfluxResult<Precision>)
        ensures
            match r {
                Ok(p) => s@ == p.code(),
                Err(e) => !Self::is_code(s@) && (e matches InfluxError::Error(m) && m@
                    == Self::invalid_text(s@)),
            },
    {
        proof {
            reveal_strlit("ns");
            reveal_strlit("us");
            reveal_strlit("ms");
            reveal_strlit("s");
            reveal_strlit("m");
            reveal_strlit("h");
        }
        if compare(s, "ns") == Order::Equal {
            Ok(Precision::Nanoseconds)
        } else if compare(s, "us") == Order::Equal {
            Ok(Precision::Microseconds)
        } else if compare(s, "ms") == Order::Equal {
            Ok(Precision::Milliseconds)
        } else if compare(s, "s") == Order::Equal {
            Ok(Precision::Seconds)
        } else if compare(s, "m") == Order::Equal {
            Ok(Precision::Minutes)
        } else if compare(s, "h") == Order::Equal {
            Ok(Precision::Hours)
        } else {
            let mut msg = String::from_str("Invalid precision: ");
            msg.append(s);
            proof {
                assert forall|p: Precision| s@ != p.code() by {
                    match p {
                        Precision::Nanoseconds => assert("ns"@ =~= p.code()),
                        Precision::Microseconds => assert("us"@ =~= p.code()),
                        Precision::Milliseconds => assert("ms"@ =~= p.code()),
                        Precision::Seconds => assert("s"@ =~= p.code()),
                        Precision::Minutes => assert("m"@ =~= p.code()),
                        Precision::Hours => assert("h"@ =~= p.code()),
                    }
                }
            }
            Err(InfluxError::Error(msg))
        }
    }

    /// Reading the code of a precision gives the precision back, and no two
    /// precisions share a code.
    pub proof fn law_code_round_trip(p: Precision, q: Precision)
        ensures
            Self::is_code(p.code()),
            p.code() == q.code() ==> p == q,
    {
        if p.code() == q.code() {
            assert(p.code().len() == q.code().len());
            assert(p.code()[0] == q.code()[0]);
            if p.code().len() == 2 {
                assert(p.code()[1] == q.code()[1]);
            }
        }
    }
}

impl Default for Precision {
    /// Nanoseconds, the precision that the remote API takes when none is
    /// named.
    fn default() -> (p: Precision)
        ensures
            p == Precision::Nanoseconds,
    {
        Precision::Nanoseconds
    }
}

impl std::str::FromStr for Precision {
    type Err = InfluxError;

    /// Reads a precision from its short code, as `parse` does: the
    /// precision whose code the text is, and for any other text the error
    /// that names it.
    fn from_str(s: &str) -> (r: Result<Precision, InfluxError>)
        ensures
            match r {
                Ok(p) => s@ == p.code(),
                Err(e) => !Self::is_code(s@) && (e matches InfluxError::Error(m) && m@
                    == Self::invalid_text(s@)),
            },
    {
        Precision::parse(s)
    }
}

} // verus!
