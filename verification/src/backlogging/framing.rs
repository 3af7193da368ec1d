//! The layout of an archive file: one entry on each line, each line closed
//! by a line feed.

use vstd::prelude::*;
use vstd::string::StrSliceExecFns;
use vstd::string::StringExecFns;

use crate::text::chars_of;
use crate::text::lemma_split_push;
use crate::text::lemma_split_whole;
use crate::text::split;
use crate::text::split_text;
use crate::text::texts;

verus! {

/// The text that holds the given entries, each followed by a line feed.
pub open spec fn frame(entries: Seq<Seq<char>>) -> Seq<char>
    decreases entries.len(),
{
    if entries.len() == 0 {
        Seq::empty()
    } else {
        frame(entries.drop_last()) + entries.last() + seq!['\n']
    }
}

/// A line without the carriage return that may close it.
pub open spec fn strip_cr(line: Seq<char>) -> Seq<char> {
    if line.len() > 0 && line.last() == '\r' {
        line.drop_last()
    } else {
        line
    }
}

/// The lines of a text as they stand between line feeds. What follows the
/// last line feed is a line only if it is not empty.
pub open spec fn raw_lines(content: Seq<char>) -> Seq<Seq<char>> {
    let pieces = split(content, '\n');
    if pieces.last().len() == 0 {
        pieces.drop_last()
    } else {
        pieces
    }
}

/// The entries of an archive: its lines, each without the line feed that
/// closes it and without a carriage return before that line feed. What
/// follows the last line feed is an entry as it stands, unless it is empty.
pub open spec fn archive_lines(content: Seq<char>) -> Seq<Seq<char>> {
    let pieces = split(content, '\n');
    let closed = Seq::new((pieces.len() - 1) as nat, |i: int| strip_cr(pieces[i]));
    if pieces.last().len() == 0 {
        closed
    } else {
        closed.push(pieces.last())
    }
}

/// The entries of a closed text are its raw lines, each without the
/// carriage return that may close it.
proof fn lemma_lines_of_closed(content: Seq<char>)
    requires
        is_closed(content),
    ensures
        archive_lines(content) == Seq::new(
            raw_lines(content).len(),
            |i: int| strip_cr(raw_lines(content)[i]),
        ),
{
    lemma_split_is_not_empty(content, '\n');
    if content.len() == 0 {
        assert(split(content, '\n') =~= seq![Seq::<char>::empty()]);
    }
    let pieces = split(content, '\n');
    assert(pieces.last().len() == 0);
    assert(archive_lines(content) =~= Seq::new(
        raw_lines(content).len(),
        |i: int| strip_cr(raw_lines(content)[i]),
    ));
}

/// Tells whether a text can be one entry of an archive: it holds no line
/// feed and does not end in a carriage return.
pub open spec fn is_entry(line: Seq<char>) -> bool {
    !line.contains('\n') && strip_cr(line) == line
}

/// Tells whether a text is empty or ends in a line feed.
pub open spec fn is_closed(content: Seq<char>) -> bool {
    content.len() == 0 || content.last() == '\n'
}

/// One more line behind a closed text is one more raw line.
proof fn lemma_raw_lines_push(content: Seq<char>, line: Seq<char>)
    requires
        is_closed(content),
        !line.contains('\n'),
    ensures
        raw_lines(content + line + seq!['\n']) == raw_lines(content).push(line),
{
    let next = content + line + seq!['\n'];
    assert(next.drop_last() =~= content + line);
    assert(next.last() == '\n');
    assert(split(next, '\n') == split(content + line, '\n').push(Seq::empty()));
    assert(split(next, '\n').drop_last() =~= split(content + line, '\n'));
    if content.len() == 0 {
        assert(content + line =~= line);
        lemma_split_whole(line, '\n');
        assert(raw_lines(content) =~= Seq::<Seq<char>>::empty());
        assert(seq![line] =~= raw_lines(content).push(line));
    } else {
        let front = content.drop_last();
        assert(content =~= front + seq!['\n']);
        assert(content + line =~= front + seq!['\n'] + line);
        lemma_split_push(front, line, '\n');
        assert(split(content, '\n') == split(front, '\n').push(Seq::empty()));
        assert(split(content, '\n').drop_last() =~= split(front, '\n'));
    }
}

/// Entries written behind a closed archive come back as its last lines, in
/// the order in which they were written, and the lines that stood before
/// them stay.
pub proof fn law_append_keeps_lines(content: Seq<char>, entries: Seq<Seq<char>>)
    requires
        is_closed(content),
        forall|i: int| 0 <= i < entries.len() ==> is_entry(#[trigger] entries[i]),
    ensures
        is_closed(content + frame(entries)),
        raw_lines(content + frame(entries)) == raw_lines(content) + entries,
        archive_lines(content + frame(entries)) == archive_lines(content) + entries,
    decreases entries.len(),
{
    if entries.len() == 0 {
        assert(content + frame(entries) =~= content);
        assert(raw_lines(content) + entries =~= raw_lines(content));
        assert(archive_lines(content) + entries =~= archive_lines(content));
    } else {
        let front = entries.drop_last();
        assert forall|i: int| 0 <= i < front.len() implies is_entry(#[trigger] front[i]) by {
            assert(front[i] == entries[i]);
        }
        law_append_keeps_lines(content, front);
        let middle = content + frame(front);
        assert(is_entry(entries[entries.len() - 1]));
        lemma_raw_lines_push(middle, entries.last());
        assert(content + frame(entries) =~= middle + entries.last() + seq!['\n']);
        assert(raw_lines(content) + front.push(entries.last()) =~= (raw_lines(content)
            + front).push(entries.last()));
        assert(front.push(entries.last()) =~= entries);
        assert(archive_lines(content + frame(entries)) =~= archive_lines(content) + entries) by {
            lemma_lines_of_closed(content);
            lemma_lines_of_closed(content + frame(entries));
            let whole = archive_lines(content + frame(entries));
            let old_raw = raw_lines(content);
            assert forall|i: int| 0 <= i < whole.len() implies whole[i] == (archive_lines(content)
                + entries)[i] by {
                if i >= old_raw.len() {
                    assert(is_entry(entries[i - old_raw.len()]));
                }
            }
        }
    }
}

/// The entries of an empty archive written in one go come back as they
/// were: reading is the inverse of writing.
pub proof fn law_frame_round_trip(entries: Seq<Seq<char>>)
    requires
        forall|i: int| 0 <= i < entries.len() ==> is_entry(#[trigger] entries[i]),
    ensures
        archive_lines(frame(entries)) == entries,
{
    law_append_keeps_lines(Seq::empty(), entries);
    lemma_lines_of_closed(Seq::empty());
    assert(Seq::<char>::empty() + frame(entries) =~= frame(entries));
    assert(raw_lines(Seq::<char>::empty()) =~= Seq::<Seq<char>>::empty());
    assert(archive_lines(Seq::<char>::empty()) + entries =~= entries);
}

/// Tells whether a text can be one entry of an archive.
pub fn fits_one_line(line: &str) -> (fits: bool)
    ensures
        fits == is_entry(line@),
{
    let chars = chars_of(line);
    let mut i: usize = 0;
    while i < chars.len()
        invariant
            i <= chars.len(),
            chars@ == line@,
            forall|j: int| 0 <= j < i ==> line@[j] != '\n',
        decreases chars.len() - i,
    {
        if chars[i] == '\n' {
            return false;
        }
        i += 1;
    }
    chars.len() == 0 || chars[chars.len() - 1] != '\r'
}

/// Writes the entries one after another, each closed by a line feed.
pub fn frame_lines(entries: &Vec<String>) -> (block: String)
    ensures
        block@ == frame(texts(entries@)),
{
    let mut block = String::new();
    let mut i: usize = 0;
    while i < entries.len()
        invariant
            i <= entries.len(),
            block@ == frame(texts(entries@).take(i as int)),
        decreases entries.len() - i,
    {
        proof {
            reveal_strlit("\n");
            let ghost next = texts(entries@).take(i as int + 1);
            assert(next.drop_last() == texts(entries@).take(i as int));
            assert(next.last() == entries@[i as int]@);
        }
        block.append(entries[i].as_str());
        block.append("\n");
        proof {
            assert("\n"@ =~= seq!['\n']);
        }
        i += 1;
    }
    proof {
        assert(texts(entries@).take(i as int) == texts(entries@));
    }
    block
}

/// Reads the entries of an archive from its content.
pub fn read_lines(content: &str) -> (lines: Vec<String>)
    ensures
        texts(lines@) == archive_lines(content@),
{
    let pieces = split_text(content, '\n');
    let ghost all = texts(pieces@);
    let n = pieces.len();
    assert(n > 0) by {
        lemma_split_is_not_empty(content@, '\n');
    }
    let ghost closed = Seq::new((all.len() - 1) as nat, |i: int| strip_cr(all[i]));
    let mut lines: Vec<String> = Vec::new();
    let mut i: usize = 0;
    while i < n - 1
        invariant
            n == pieces@.len(),
            n > 0,
            i <= n - 1,
            all == texts(pieces@),
            closed == Seq::new((all.len() - 1) as nat, |i: int| strip_cr(all[i])),
            texts(lines@) == closed.take(i as int),
        decreases n - 1 - i,
    {
        let piece = pieces[i].as_str();
        let chars = chars_of(piece);
        let ghost before = texts(lines@);
        assert(all[i as int] == piece@);
        if chars.len() > 0 && chars[chars.len() - 1] == '\r' {
            lines.push(String::from_str(piece.substring_char(0, chars.len() - 1)));
            proof {
                assert(piece@.subrange(0, piece@.len() - 1) == piece@.drop_last());
            }
        } else {
            lines.push(String::from_str(piece));
        }
        proof {
            assert(texts(lines@) =~= before.push(strip_cr(piece@)));
            assert(before.push(strip_cr(piece@)) =~= closed.take(i as int + 1));
        }
        i += 1;
    }
    proof {
        assert(closed.take(i as int) == closed);
        assert(all[n - 1] == pieces@[n - 1]@);
    }
    if pieces[n - 1].as_str().unicode_len() > 0 {
        let ghost before = texts(lines@);
        lines.push(String::from_str(pieces[n - 1].as_str()));
        proof {
            assert(texts(lines@) =~= before.push(all[n - 1]));
        }
    }
    lines
}

/// A text has at least one piece.
pub proof fn lemma_split_is_not_empty(s: Seq<char>, sep: char)
    ensures
        split(s, sep).len() > 0,
    decreases s.len(),
{
    if s.len() > 0 {
        lemma_split_is_not_empty(s.drop_last(), sep);
    }
}

} // verus!
