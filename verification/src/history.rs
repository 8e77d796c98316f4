//! The history file: one record per line.

use crate::entry::{Entry, EntryView};
use crate::lock::OpenError;
use crate::text::{blank, is_blank, lines, lines_last, lines_of, lines_step, views, without_cr};
use vstd::prelude::*;

verus! {

/// Records as a file holds them: each followed by a line feed.
pub open spec fn framed(records: Seq<Seq<char>>) -> Seq<char>
    decreases records.len(),
{
    if records.len() == 0 {
        seq![]
    } else {
        records[0] + seq!['\n'] + framed(records.drop_first())
    }
}

/// The lines that are not blank, each with its number, counted from one.
pub open spec fn numbered(ls: Seq<Seq<char>>) -> Seq<(nat, Seq<char>)>
    decreases ls.len(),
{
    if ls.len() == 0 {
        seq![]
    } else if blank(ls.last()) {
        numbered(ls.drop_last())
    } else {
        numbered(ls.drop_last()).push((ls.len(), ls.last()))
    }
}

/// A line of the history file.
#[derive(Debug, PartialEq, Eq)]
pub struct Record {
    /// Its number, counted from one.
    pub line: usize,
    pub text: String,
}

/// The numbers and texts of some records.
pub open spec fn record_views(rs: Seq<Record>) -> Seq<(nat, Seq<char>)> {
    Seq::new(rs.len(), |i: int| (rs[i].line as nat, rs[i].text@))
}

proof fn framed_push(records: Seq<Seq<char>>, last: Seq<char>)
    ensures
        framed(records.push(last)) == framed(records) + last + seq!['\n'],
    decreases records.len(),
{
    let all = records.push(last);
    if records.len() == 0 {
        assert(all.drop_first() =~= Seq::<Seq<char>>::empty());
        assert(framed(all.drop_first()) == Seq::<char>::empty());
        assert(framed(all) =~= framed(records) + last + seq!['\n']);
    } else {
        assert(all.drop_first() =~= records.drop_first().push(last));
        framed_push(records.drop_first(), last);
        assert(framed(all) =~= framed(records) + last + seq!['\n']);
    }
}

/// What a file with some records holds.
pub fn frame(records: &Vec<String>) -> (out: String)
    ensures
        out@ == framed(views(records@)),
{
    let ghost v = views(records@);
    let mut out = String::new();
    let mut i: usize = 0;
    assert(v.take(0) =~= Seq::<Seq<char>>::empty());
    assert(out@ =~= framed(v.take(0)));
    while i < records.len()
        invariant
            v == views(records@),
            i <= records@.len(),
            out@ == framed(v.take(i as int)),
        decreases records@.len() - i,
    {
        proof {
            assert(v[i as int] == records@[i as int]@);
            assert(v.take(i + 1) =~= v.take(i as int).push(v[i as int]));
            framed_push(v.take(i as int), v[i as int]);
        }
        out.append(records[i].as_str());
        out.push('\n');
        i = i + 1;
        assert(out@ =~= framed(v.take(i as int)));
    }
    assert(v.take(i as int) =~= v);
    out
}

/// The records of a file.
pub fn read_records(raw: &str) -> (out: Vec<Record>)
    ensures
        record_views(out@) == numbered(lines(raw@)),
{
    let ls: Vec<String> = lines_of(raw);
    let ghost v = views(ls@);
    let mut out: Vec<Record> = Vec::new();
    let mut i: usize = 0;
    assert(v.take(0) =~= Seq::<Seq<char>>::empty());
    assert(record_views(out@) =~= numbered(v.take(0)));
    while i < ls.len()
        invariant
            v == views(ls@),
            i <= ls@.len(),
            record_views(out@) == numbered(v.take(i as int)),
        decreases ls@.len() - i,
    {
        let ghost before = record_views(out@);
        proof {
            assert(v.take(i + 1).drop_last() =~= v.take(i as int));
            assert(v.take(i + 1).last() == ls@[i as int]@);
        }
        if !is_blank(ls[i].as_str()) {
            out.push(Record { line: i + 1, text: ls[i].clone() });
            assert(record_views(out@) =~= before.push(((i + 1) as nat, ls@[i as int]@)));
        }
        i = i + 1;
    }
    assert(v.take(i as int) =~= v);
    out
}

/// Whether a text can stand as a record: it fits on one line, is not blank, and
/// does not end in a carriage return.
pub open spec fn is_record(r: Seq<char>) -> bool {
    &&& !r.contains('\n')
    &&& !blank(r)
    &&& r.last() != '\r'
}

proof fn framed_lines(records: Seq<Seq<char>>)
    requires
        forall|i: int| 0 <= i < records.len() ==> is_record(#[trigger] records[i]),
    ensures
        lines(framed(records)) == records,
    decreases records.len(),
{
    if records.len() == 0 {
        lines_last(framed(records));
        assert(lines(framed(records)) =~= records);
    } else {
        let rest = records.drop_first();
        assert forall|i: int| 0 <= i < rest.len() implies is_record(#[trigger] rest[i]) by {
            assert(rest[i] == records[i + 1]);
        }
        assert(is_record(records[0]));
        framed_lines(rest);
        lines_step(records[0], framed(rest));
        assert(without_cr(records[0]) == records[0]);
        assert(seq![records[0]] + rest =~= records);
    }
}

proof fn numbered_records(records: Seq<Seq<char>>)
    requires
        forall|i: int| 0 <= i < records.len() ==> is_record(#[trigger] records[i]),
    ensures
        numbered(records) == Seq::new(records.len(), |i: int| ((i + 1) as nat, records[i])),
    decreases records.len(),
{
    let want = Seq::new(records.len(), |i: int| ((i + 1) as nat, records[i]));
    if records.len() > 0 {
        let head = records.drop_last();
        assert forall|i: int| 0 <= i < head.len() implies is_record(#[trigger] head[i]) by {
            assert(head[i] == records[i]);
        }
        numbered_records(head);
        assert(is_record(records[records.len() - 1]));
        assert(numbered(records) =~= want);
    } else {
        assert(numbered(records) =~= want);
    }
}

/// What is written is read back: a file made of records holds these records, in
/// their order, on consecutive lines.
pub proof fn framing_reads_back(records: Seq<Seq<char>>)
    requires
        forall|i: int| 0 <= i < records.len() ==> is_record(#[trigger] records[i]),
    ensures
        numbered(lines(framed(records))) == Seq::new(
            records.len(),
            |i: int| ((i + 1) as nat, records[i]),
        ),
{
    framed_lines(records);
    numbered_records(records);
}

/// A history that was written is read back when it is opened again, entry by
/// entry, whatever way entries are written as records, as long as what is written
/// can be read.
pub proof fn history_reads_back(
    es: Seq<EntryView>,
    write: spec_fn(EntryView) -> Seq<char>,
    read: spec_fn(Seq<char>) -> Option<EntryView>,
)
    requires
        forall|i: int|
            0 <= i < es.len() ==> is_record(write(#[trigger] es[i])) && read(write(es[i])) == Some(
                es[i],
            ),
    ensures
        ({
            let found = numbered(lines(framed(Seq::new(es.len(), |i: int| write(es[i])))));
            &&& found.len() == es.len()
            &&& forall|i: int|
                0 <= i < es.len() ==> (#[trigger] found[i]).0 == i + 1 && read(found[i].1) == Some(
                    es[i],
                )
        }),
{
    let records = Seq::new(es.len(), |i: int| write(es[i]));
    assert forall|i: int| 0 <= i < records.len() implies is_record(#[trigger] records[i]) by {
        assert(is_record(write(es[i])));
    }
    framing_reads_back(records);
}

/// Appending a record to a file that ends in a line feed is the same as writing
/// the file anew with the record at its end.
pub proof fn appending_is_framing(records: Seq<Seq<char>>, last: Seq<char>)
    ensures
        framed(records.push(last)) == framed(records) + framed(seq![last]),
{
    framed_push(records, last);
    framed_push(Seq::<Seq<char>>::empty(), last);
    assert(Seq::<Seq<char>>::empty().push(last) =~= seq![last]);
    assert(framed(records.push(last)) =~= framed(records) + framed(seq![last]));
}

// ---------------------------------------------------------------------------
// Loading

/// A line of the history file and the entry it stands for, if it stands for one.
pub struct Parsed {
    /// The number of the line, counted from one.
    pub line: usize,
    pub entry: Option<Entry>,
}

/// Take the entries of a history file over, in their order. The first line that
/// stands for none makes the file corrupt.
pub fn load_entries(parsed: &Vec<Parsed>, path: &str) -> (res: Result<Vec<Entry>, OpenError>)
    ensures
        match res {
            Ok(es) => {
                &&& es@.len() == parsed@.len()
                &&& forall|i: int|
                    0 <= i < es@.len() ==> (parsed@[i].entry matches Some(e) && (
                    #[trigger] es@[i])@ == e@)
            },
            Err(e) => exists|i: int|
                {
                    &&& 0 <= i < parsed@.len()
                    &&& (#[trigger] parsed@[i]).entry is None
                    &&& forall|j: int| 0 <= j < i ==> (#[trigger] parsed@[j]).entry is Some
                    &&& e matches OpenError::CorruptLine(n, p) && n == parsed@[i].line && p@
                        == path@
                },
        },
{
    let mut out: Vec<Entry> = Vec::new();
    let mut i: usize = 0;
    while i < parsed.len()
        invariant
            i <= parsed@.len(),
            out@.len() == i,
            forall|j: int| 0 <= j < i ==> (#[trigger] parsed@[j]).entry is Some,
            forall|j: int|
                0 <= j < i ==> (parsed@[j].entry matches Some(e) && (#[trigger] out@[j])@ == e@),
        decreases parsed@.len() - i,
    {
        match &parsed[i].entry {
            Some(e) => {
                out.push(e.clone());
            },
            None => {
                assert(parsed@[i as int].entry is None);
                return Err(OpenError::CorruptLine(parsed[i].line, path.to_owned()));
            },
        }
        i = i + 1;
    }
    Ok(out)
}

} // verus!
