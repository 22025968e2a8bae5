use vstd::prelude::*;
use crate::copy_range;

verus! {

/// The index just past the record that starts at `from`: one past the first
/// newline byte at or after `from`, or the end of the stream when no newline
/// follows.
pub open spec fn line_end(s: Seq<u8>, from: int) -> int
    decreases s.len() - from,
{
    if from < 0 || from >= s.len() {
        s.len() as int
    } else if s[from] == 10u8 {
        from + 1
    } else {
        line_end(s, from + 1)
    }
}

/// A record always reaches past its own start and never past the stream.
pub proof fn lemma_line_end_bounds(s: Seq<u8>, from: int)
    requires
        0 <= from < s.len(),
    ensures
        from < line_end(s, from) <= s.len(),
    decreases s.len() - from,
{
    if s[from] != 10u8 {
        if from + 1 < s.len() {
            lemma_line_end_bounds(s, from + 1);
        } else {
            assert(line_end(s, from + 1) == s.len());
        }
    }
}

/// The records of the stream from `from` on: each holds the bytes up to and
/// including its newline; the last may lack one. An exhausted stream holds
/// no further record.
pub open spec fn lines_from(s: Seq<u8>, from: int) -> Seq<Seq<u8>>
    decreases s.len() - from,
{
    if from < 0 || from >= s.len() {
        Seq::empty()
    } else {
        let e: int = line_end(s, from);
        if from < e <= s.len() {
            seq![s.subrange(from, e)] + lines_from(s, e)
        } else {
            Seq::empty()
        }
    }
}

/// All the records of the stream, in order.
pub open spec fn lines_of(s: Seq<u8>) -> Seq<Seq<u8>> {
    lines_from(s, 0)
}

/// Every record consumes at least one byte, so a stream of `n` bytes holds
/// at most `n` records.
pub proof fn lemma_lines_from_len(s: Seq<u8>, from: int)
    requires
        0 <= from,
    ensures
        lines_from(s, from).len() <= s.len() - from || lines_from(s, from).len() == 0,
    decreases s.len() - from,
{
    if from < s.len() {
        lemma_line_end_bounds(s, from);
        lemma_lines_from_len(s, line_end(s, from));
    }
}

/// The record without its trailing newline, if it carries one.
pub open spec fn trim_newline(l: Seq<u8>) -> Seq<u8> {
    if l.len() > 0 && l[l.len() - 1] == 10u8 {
        l.drop_last()
    } else {
        l
    }
}

/// Pulls successive newline-terminated records out of a byte stream held in
/// memory. Each pull hands out an owned copy of the record, so a record
/// stays valid however long the caller keeps it. Once the stream is
/// exhausted the reader stays exhausted: no further record ever follows.
pub struct BufferLinesIterator {
    data: Vec<u8>,
    pos: usize,
}

impl BufferLinesIterator {
    /// The whole byte stream this reader was given.
    pub closed spec fn stream(&self) -> Seq<u8> {
        self.data@
    }

    /// How many bytes of the stream have been consumed.
    pub closed spec fn cursor(&self) -> int {
        self.pos as int
    }

    /// The cursor never leaves the stream.
    pub open spec fn wf(&self) -> bool {
        0 <= self.cursor() <= self.stream().len()
    }

    /// A fresh reader over the whole of `source`.
    pub fn new(source: Vec<u8>) -> (r: BufferLinesIterator)
        ensures
            r.wf(),
            r.stream() == source@,
            r.cursor() == 0,
    {
        BufferLinesIterator { data: source, pos: 0 }
    }

    /// Produces the next record, raw bytes including any trailing newline —
    /// trimming is the caller's business — or signals end-of-stream, a
    /// terminal state.
    pub fn next(&mut self) -> (r: Option<Vec<u8>>)
        requires
            old(self).wf(),
        ensures
            final(self).wf(),
            final(self).stream() == old(self).stream(),
            ({
                let s = old(self).stream();
                let p = old(self).cursor();
                if p >= s.len() {
                    r is None && final(self).cursor() == p
                } else {
                    r matches Some(rec) && rec@ == s.subrange(p, line_end(s, p))
                        && final(self).cursor() == line_end(s, p) && final(self).cursor() > p
                }
            }),
    {
        if self.pos >= self.data.len() {
            return None;
        }
        let mut end: usize = self.pos;
        loop
            invariant
                self.pos <= end <= self.data.len(),
                forall|j: int| self.pos <= j < end ==> self.data@[j] != 10u8,
            ensures
                self.pos <= end <= self.data.len(),
                forall|j: int| self.pos <= j < end ==> self.data@[j] != 10u8,
                end == self.data.len() || self.data@[end as int] == 10u8,
            decreases self.data.len() - end,
        {
            if end >= self.data.len() {
                break ;
            }
            if self.data[end] == 10u8 {
                break ;
            }
            end = end + 1;
        }
        let stop: usize = if end < self.data.len() {
            end + 1
        } else {
            end
        };
        proof {
            lemma_line_end_at(self.data@, self.pos as int, end as int);
        }
        let rec = copy_range(&self.data, self.pos, stop);
        self.pos = stop;
        Some(rec)
    }
}

/// Pins `line_end` down once the first newline at or after `from` is known:
/// it stands one past that newline, or at the stream end when none follows.
proof fn lemma_line_end_at(s: Seq<u8>, from: int, e: int)
    requires
        0 <= from <= e <= s.len(),
        forall|j: int| from <= j < e ==> s[j] != 10u8,
        e == s.len() || s[e] == 10u8,
    ensures
        line_end(s, from) == if e < s.len() {
            e + 1
        } else {
            e
        },
    decreases e - from,
{
    if from < e {
        lemma_line_end_at(s, from + 1, e);
    }
}

} // verus!
