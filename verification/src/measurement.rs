//! One measurement: a name, tags, fields and an optional timestamp, and its
//! rendering as a line of line protocol.

use vstd::prelude::*;
use vstd::string::StrSliceExecFns;
use vstd::string::StringExecFns;

use crate::error::InfluxError;
use crate::error::InfluxResult;
use crate::ordered::OrderedMap;
use crate::precision::Precision;
use crate::text::contains_char;
use crate::text::decimal;
use crate::text::join;
use crate::text::join_texts;
use crate::text::texts;
use crate::text::push_decimal;
use crate::timestamp::Timestamp;
use crate::value::Value;

verus! {

/// A named event with its tags, its fields and, if known, its instant.
#[derive(Debug, Clone, PartialEq, Eq)]
pub struct Measurement {
    pub name: String,
    pub tags: OrderedMap<String>,
    pub fields: OrderedMap<Value>,
    pub timestamp: Option<Timestamp>,
}

impl Measurement {
    /// The tags as `key=value` texts, in stored order.
    pub open spec fn tag_texts(&self) -> Seq<Seq<char>> {
        Seq::new(self.tags.count(), |i: int| self.tags.key(i) + seq!['='] + self.tags.value(i)@)
    }

    /// The fields as `key=value` texts, in stored order.
    pub open spec fn field_texts(&self) -> Seq<Seq<char>> {
        Seq::new(
            self.fields.count(),
            |i: int| self.fields.key(i) + seq!['='] + self.fields.value(i).text(),
        )
    }

    /// The part of a line that holds the tags: nothing without tags, else a
    /// comma and the tags, comma separated.
    pub open spec fn tag_part(&self) -> Seq<char> {
        if self.tags.count() == 0 {
            Seq::empty()
        } else {
            seq![','] + join(self.tag_texts(), seq![','])
        }
    }

    /// The part of a line that holds the fields: nothing without fields,
    /// else a space and the fields, comma separated.
    pub open spec fn field_part(&self) -> Seq<char> {
        if self.fields.count() == 0 {
            Seq::empty()
        } else {
            seq![' '] + join(self.field_texts(), seq![','])
        }
    }

    /// The part of a line that holds the instant: nothing without a
    /// timestamp, else a space and the instant at the given precision.
    pub open spec fn time_part(&self, precision: Precision) -> Seq<char> {
        match self.timestamp {
            Some(ts) => seq![' '] + decimal(ts.instant(precision)),
            None => Seq::empty(),
        }
    }

    /// The line of line protocol that stands for the measurement:
    /// `name[,tag=value,...] field=value[,field=value...][ timestamp]`.
    pub open spec fn line(&self, precision: Precision) -> Seq<char> {
        self.name@ + self.tag_part() + self.field_part() + self.time_part(precision)
    }

    /// Tells whether the measurement holds the text `v` under the tag `k`.
    pub open spec fn has_tag(&self, k: Seq<char>, v: Seq<char>) -> bool {
        exists|i: int|
            0 <= i < self.tags.count() && self.tags.key(i) == k && self.tags.value(i)@ == v
    }

    /// Tells whether the measurement can be sent: it has a name without
    /// commas and spaces, and at least one field.
    pub open spec fn is_valid(&self) -> bool {
        &&& self.name@.len() > 0
        &&& !self.name@.contains(',')
        &&& !self.name@.contains(' ')
        &&& self.fields.count() > 0
    }

    /// What is wrong with a measurement that cannot be sent.
    pub open spec fn defect(&self) -> Seq<char> {
        if self.name@.len() == 0 {
            "measurement without a name"@
        } else if self.name@.contains(',') || self.name@.contains(' ') {
            "comma or space in the name of measurement: "@ + self.name@
        } else {
            "no fields in measurement: "@ + self.name@
        }
    }

    /// A measurement of the given name, without tags, fields or timestamp.
    pub fn new(name: &str) -> (m: Self)
        ensures
            m.name@ == name@,
            m.tags.count() == 0,
            m.fields.count() == 0,
            m.timestamp is None,
    {
        Self {
            name: String::from_str(name),
            tags: OrderedMap::new(),
            fields: OrderedMap::new(),
            timestamp: None,
        }
    }

    /// The same measurement at the given instant.
    pub fn timestamp(self, timestamp: Timestamp) -> (m: Self)
        ensures
            m.timestamp == Some(timestamp),
            m.name == self.name,
            m.tags == self.tags,
            m.fields == self.fields,
    {
        let mut m = self;
        m.timestamp = Some(timestamp);
        m
    }

    /// The same measurement with `value` under the tag `key`.
    pub fn add_tag(self, key: &str, value: &str) -> (m: Self)
        ensures
            m.name == self.name,
            m.fields == self.fields,
            m.timestamp == self.timestamp,
            forall|k: Seq<char>, v: Seq<char>|
                m.has_tag(k, v) <==> (k == key@ && v == value@) || (k != key@ && self.has_tag(
                    k,
                    v,
                )),
            m.tags.count() == self.tags.count() + if self.tags.has_key(key@) {
                0int
            } else {
                1int
            },
    {
        let mut m = self;
        m.tag(key, value);
        m
    }

    /// The same measurement with `value` under the field `key`.
    pub fn add_field(self, key: &str, value: Value) -> (m: Self)
        ensures
            m.name == self.name,
            m.tags == self.tags,
            m.timestamp == self.timestamp,
            forall|k: Seq<char>, v: Value|
                m.fields.holds(k, v) <==> (k == key@ && v == value) || (k != key@
                    && self.fields.holds(k, v)),
            m.fields.count() == self.fields.count() + if self.fields.has_key(key@) {
                0int
            } else {
                1int
            },
    {
        let mut m = self;
        m.field(key, value);
        m
    }

    /// Puts `value` under the tag `key` of this measurement, and hands the
    /// measurement on for more.
    pub fn tag(&mut self, key: &str, value: &str) -> (m: &mut Self)
        ensures
            *final(self) == *final(m),
            m.name == old(self).name,
            m.fields == old(self).fields,
            m.timestamp == old(self).timestamp,
            forall|k: Seq<char>, v: Seq<char>|
                m.has_tag(k, v) <==> (k == key@ && v == value@) || (k != key@ && old(
                    self,
                ).has_tag(k, v)),
            m.tags.count() == old(self).tags.count() + if old(self).tags.has_key(key@) {
                0int
            } else {
                1int
            },
    {
        let owned = String::from_str(value);
        self.tags.insert(String::from_str(key), owned);
        proof {
            assert forall|k: Seq<char>, v: Seq<char>|
                self.has_tag(k, v) <==> (k == key@ && v == value@) || (k != key@ && old(
                    self,
                ).has_tag(k, v)) by {
                if self.has_tag(k, v) {
                    let i = choose|i: int|
                        0 <= i < self.tags.count() && self.tags.key(i) == k && self.tags.value(i)@
                            == v;
                    assert(self.tags.holds(k, self.tags.value(i)));
                    if k != key@ {
                        let j = choose|j: int|
                            0 <= j < old(self).tags.count() && old(self).tags.key(j) == k && old(
                                self,
                            ).tags.value(j) == self.tags.value(i);
                        assert(old(self).tags.value(j)@ == v);
                    }
                }
                if k == key@ && v == value@ {
                    assert(self.tags.holds(k, owned));
                }
                if k != key@ && old(self).has_tag(k, v) {
                    let j = choose|j: int|
                        0 <= j < old(self).tags.count() && old(self).tags.key(j) == k && old(
                            self,
                        ).tags.value(j)@ == v;
                    assert(old(self).tags.holds(k, old(self).tags.value(j)));
                    assert(self.tags.holds(k, old(self).tags.value(j)));
                }
            }
        }
        self
    }

    /// Puts `value` under the field `key` of this measurement, and hands
    /// the measurement on for more.
    pub fn field(&mut self, key: &str, value: Value) -> (m: &mut Self)
        ensures
            *final(self) == *final(m),
            m.name == old(self).name,
            m.tags == old(self).tags,
            m.timestamp == old(self).timestamp,
            forall|k: Seq<char>, v: Value|
                m.fields.holds(k, v) <==> (k == key@ && v == value) || (k != key@ && old(
                    self,
                ).fields.holds(k, v)),
            m.fields.count() == old(self).fields.count() + if old(self).fields.has_key(key@) {
                0int
            } else {
                1int
            },
    {
        self.fields.insert(String::from_str(key), value);
        self
    }

    /// Tells whether the measurement can be sent, and if not, what is wrong
    /// with it.
    pub fn check(&self) -> (r: InfluxResult<()>)
        ensures
            r is Ok <==> self.is_valid(),
            r matches Err(e) ==> (e matches InfluxError::Encoding(m) && m@ == self.defect()),
    {
        if self.name.as_str().unicode_len() == 0 {
            Err(InfluxError::Encoding(String::from_str("measurement without a name")))
        } else if contains_char(self.name.as_str(), ',') || contains_char(
            self.name.as_str(),
            ' ',
        ) {
            let mut msg = String::from_str("comma or space in the name of measurement: ");
            msg.append(self.name.as_str());
            Err(InfluxError::Encoding(msg))
        } else if self.fields.is_empty() {
            let mut msg = String::from_str("no fields in measurement: ");
            msg.append(self.name.as_str());
            Err(InfluxError::Encoding(msg))
        } else {
            Ok(())
        }
    }

    /// Appends the tags to `out`, each as `key=value`, with a comma before
    /// each.
    fn push_tags(&self, out: &mut String)
        ensures
            final(out)@ == old(out)@ + self.tag_part(),
    {
        let n = self.tags.len();
        let ghost start = out@;
        let mut i: usize = 0;
        while i < n
            invariant
                i <= n,
                n == self.tags.count(),
                i == 0 ==> out@ == start,
                i > 0 ==> out@ == start + seq![','] + join(
                    self.tag_texts().take(i as int),
                    seq![','],
                ),
            decreases n - i,
        {
            proof {
                reveal_strlit(",");
                reveal_strlit("=");
                let ghost next = self.tag_texts().take(i as int + 1);
                assert(next.drop_last() == self.tag_texts().take(i as int));
                assert(next.last() == self.tag_texts()[i as int]);
            }
            out.append(",");
            out.append(self.tags.key_at(i).as_str());
            out.append("=");
            out.append(self.tags.value_at(i).as_str());
            proof {
                let ghost piece = self.tag_texts()[i as int];
                assert(piece == self.tags.key(i as int) + seq!['='] + self.tags.value(i as int)@);
                if i == 0 {
                    assert(out@ =~= start + seq![','] + piece);
                } else {
                    assert(out@ =~= start + seq![','] + (join(
                        self.tag_texts().take(i as int),
                        seq![','],
                    ) + seq![','] + piece));
                }
            }
            i += 1;
        }
        proof {
            assert(self.tag_texts().take(n as int) == self.tag_texts());
            if n == 0 {
                assert(out@ =~= start + self.tag_part());
            }
        }
    }

    /// Appends the fields to `out`: a space, then each field as `key=value`,
    /// comma separated.
    fn push_fields(&self, out: &mut String)
        ensures
            final(out)@ == old(out)@ + self.field_part(),
    {
        let n = self.fields.len();
        let ghost start = out@;
        let mut i: usize = 0;
        while i < n
            invariant
                i <= n,
                n == self.fields.count(),
                i == 0 ==> out@ == start,
                i > 0 ==> out@ == start + seq![' '] + join(
                    self.field_texts().take(i as int),
                    seq![','],
                ),
            decreases n - i,
        {
            proof {
                reveal_strlit(",");
                reveal_strlit("=");
                reveal_strlit(" ");
                let ghost next = self.field_texts().take(i as int + 1);
                assert(next.drop_last() == self.field_texts().take(i as int));
                assert(next.last() == self.field_texts()[i as int]);
            }
            if i == 0 {
                out.append(" ");
            } else {
                out.append(",");
            }
            out.append(self.fields.key_at(i).as_str());
            out.append("=");
            self.fields.value_at(i).push_text(out);
            proof {
                let ghost piece = self.field_texts()[i as int];
                assert(piece == self.fields.key(i as int) + seq!['='] + self.fields.value(
                    i as int,
                ).text());
                if i == 0 {
                    assert(out@ =~= start + seq![' '] + piece);
                } else {
                    assert(out@ =~= start + seq![' '] + (join(
                        self.field_texts().take(i as int),
                        seq![','],
                    ) + seq![','] + piece));
                }
            }
            i += 1;
        }
        proof {
            assert(self.field_texts().take(n as int) == self.field_texts());
            if n == 0 {
                assert(out@ =~= start + self.field_part());
            }
        }
    }

    /// Renders the measurement as one line of line protocol, with its
    /// timestamp at the given precision.
    pub fn to_line(&self, precision: &Precision) -> (line: String)
        ensures
            line@ == self.line(*precision),
    {
        let mut line = String::from_str(self.name.as_str());
        self.push_tags(&mut line);
        self.push_fields(&mut line);
        match self.timestamp {
            Some(ts) => {
                proof {
                    reveal_strlit(" ");
                }
                let ghost before = line@;
                line.append(" ");
                push_decimal(&mut line, ts.scaled(*precision));
                proof {
                    assert(line@ =~= before + (seq![' '] + decimal(ts.instant(*precision))));
                }
            },
            None => {
                proof {
                    assert(line@ =~= line@ + Seq::<char>::empty());
                }
            },
        }
        line
    }

    /// The tags as `key:value` texts, in stored order.
    pub open spec fn tag_notes(&self) -> Seq<Seq<char>> {
        Seq::new(self.tags.count(), |i: int| self.tags.key(i) + seq![':'] + self.tags.value(i)@)
    }

    /// The description of the measurement for a reader: its name, its tags
    /// as `key:value`, its fields as `key=value`, and its instant at the
    /// given precision if it has one, all separated by spaces.
    pub open spec fn description(&self, precision: Precision) -> Seq<char> {
        "\tmeasurement="@ + self.name@ + seq![' '] + join(self.tag_notes(), seq![' ']) + seq![' ']
            + join(self.field_texts(), seq![' ']) + seq![' '] + match self.timestamp {
            Some(ts) => decimal(ts.instant(precision)),
            None => Seq::empty(),
        }
    }

    /// Describes the measurement for a reader.
    pub fn describe(&self, precision: &Precision) -> (text: String)
        ensures
            text@ == self.description(*precision),
    {
        let mut tags: Vec<String> = Vec::new();
        let mut i: usize = 0;
        let n = self.tags.len();
        while i < n
            invariant
                i <= n,
                n == self.tags.count(),
                texts(tags@) == self.tag_notes().take(i as int),
            decreases n - i,
        {
            proof {
                reveal_strlit(":");
            }
            let mut note = String::from_str(self.tags.key_at(i).as_str());
            note.append(":");
            note.append(self.tags.value_at(i).as_str());
            let ghost before = texts(tags@);
            tags.push(note);
            proof {
                assert(":"@ =~= seq![':']);
                assert(note@ == self.tag_notes()[i as int]);
                assert(texts(tags@) =~= before.push(note@));
                assert(before.push(note@) =~= self.tag_notes().take(i as int + 1));
            }
            i += 1;
        }
        let mut fields: Vec<String> = Vec::new();
        let mut j: usize = 0;
        let k = self.fields.len();
        while j < k
            invariant
                j <= k,
                k == self.fields.count(),
                texts(fields@) == self.field_texts().take(j as int),
            decreases k - j,
        {
            proof {
                reveal_strlit("=");
            }
            let mut note = String::from_str(self.fields.key_at(j).as_str());
            note.append("=");
            self.fields.value_at(j).push_text(&mut note);
            let ghost before = texts(fields@);
            fields.push(note);
            proof {
                assert("="@ =~= seq!['=']);
                assert(note@ == self.field_texts()[j as int]);
                assert(texts(fields@) =~= before.push(note@));
                assert(before.push(note@) =~= self.field_texts().take(j as int + 1));
            }
            j += 1;
        }
        proof {
            reveal_strlit(" ");
            assert(" "@ =~= seq![' ']);
            assert(self.tag_notes().take(n as int) == self.tag_notes());
            assert(self.field_texts().take(k as int) == self.field_texts());
        }
        let mut text = String::from_str("\tmeasurement=");
        text.append(self.name.as_str());
        text.append(" ");
        text.append(join_texts(&tags, " ").as_str());
        text.append(" ");
        text.append(join_texts(&fields, " ").as_str());
        text.append(" ");
        match self.timestamp {
            Some(ts) => push_decimal(&mut text, ts.scaled(*precision)),
            None => {
                proof {
                    assert(text@ =~= text@ + Seq::<char>::empty());
                }
            },
        }
        text
    }
}

} // verus!
