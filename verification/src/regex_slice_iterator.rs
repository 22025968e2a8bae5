use vstd::prelude::*;
use crate::copy_range;
use crate::matcher::{Matcher, regex_find};

verus! {

/// Where the cursor stands after emitting a match found at relative offsets
/// `(s, e)` of the suffix that starts at `cursor`: just past the match, and
/// one byte further (capped at the line length) when the match is empty, so
/// that the scan always makes forward progress.
pub open spec fn next_cursor(cursor: int, s: int, e: int, len: int) -> int {
    if s == e {
        if cursor + e + 1 <= len {
            cursor + e + 1
        } else {
            len
        }
    } else {
        cursor + e
    }
}

/// The spans the segmenter emits from `cursor` on: repeatedly ask the
/// matching engine for the first occurrence in the unconsumed suffix, emit
/// it at absolute offsets, and resume at `next_cursor`. The engine only ever
/// reports offsets with `0 <= s <= e <= suffix length`; outside that the
/// definition stops, so that it is total.
pub open spec fn spans_from(pattern: Seq<char>, line: Seq<u8>, cursor: int) -> Seq<(int, int)>
    decreases line.len() - cursor,
{
    if cursor < 0 || cursor >= line.len() {
        Seq::empty()
    } else {
        match regex_find(pattern, line.subrange(cursor, line.len() as int)) {
            Option::None => Seq::empty(),
            Option::Some(p) => {
                if 0 <= p.0 && p.0 <= p.1 && cursor + p.1 <= line.len() {
                    seq![(cursor + p.0, cursor + p.1)] + spans_from(
                        pattern,
                        line,
                        next_cursor(cursor, p.0, p.1, line.len() as int),
                    )
                } else {
                    Seq::empty()
                }
            },
        }
    }
}

/// All spans of the pattern in the line, scanning from the start.
pub open spec fn match_spans(pattern: Seq<char>, line: Seq<u8>) -> Seq<(int, int)> {
    spans_from(pattern, line, 0)
}

/// Every span lies within `[lo, len]` and runs forward, and any two spans,
/// in order, do not overlap: the earlier one ends at or before the later one
/// starts.
pub open spec fn spans_well_formed(spans: Seq<(int, int)>, lo: int, len: int) -> bool {
    &&& forall|i: int|
        0 <= i < spans.len() ==> lo <= (#[trigger] spans[i]).0 && spans[i].0 <= spans[i].1
            && spans[i].1 <= len
    &&& forall|i: int, j: int|
        0 <= i < j < spans.len() ==> (#[trigger] spans[i]).1 <= (#[trigger] spans[j]).0
}

/// The segmenter's spans, from any cursor, are ordered, non-overlapping and
/// within the line.
pub proof fn lemma_spans_from_well_formed(pattern: Seq<char>, line: Seq<u8>, cursor: int)
    requires
        0 <= cursor <= line.len(),
    ensures
        spans_well_formed(spans_from(pattern, line, cursor), cursor, line.len() as int),
    decreases line.len() - cursor,
{
    let spans = spans_from(pattern, line, cursor);
    if cursor >= line.len() {
    } else {
        match regex_find(pattern, line.subrange(cursor, line.len() as int)) {
            Option::None => {},
            Option::Some(p) => {
                if 0 <= p.0 && p.0 <= p.1 && cursor + p.1 <= line.len() {
                    let next = next_cursor(cursor, p.0, p.1, line.len() as int);
                    let rest = spans_from(pattern, line, next);
                    lemma_spans_from_well_formed(pattern, line, next);
                    assert(spans[0] == (cursor + p.0, cursor + p.1));
                    assert(forall|i: int| 1 <= i < spans.len() ==> spans[i] == rest[i - 1]);
                }
            },
        }
    }
}

/// Law: matches are strictly ordered and non-overlapping — for any two
/// spans, in order, `end <= start` — and every span lies within
/// `[0, line length]`.
pub proof fn lemma_match_spans_ordered(pattern: Seq<char>, line: Seq<u8>)
    ensures
        spans_well_formed(match_spans(pattern, line), 0, line.len() as int),
{
    lemma_spans_from_well_formed(pattern, line, 0);
}

/// Law: a line in which the matching engine finds no occurrence of the
/// pattern yields an empty match sequence.
pub proof fn lemma_no_match_empty(pattern: Seq<char>, line: Seq<u8>)
    requires
        regex_find(pattern, line) is None,
    ensures
        match_spans(pattern, line) =~= Seq::empty(),
{
    assert(line.subrange(0, line.len() as int) =~= line);
}

/// One pattern occurrence within a line: the absolute byte offsets
/// `[start, end)` of the occurrence, and an owned copy of the matched bytes.
pub struct RegexSliceMatch {
    start: usize,
    end: usize,
    text: Vec<u8>,
}

impl RegexSliceMatch {
    /// The absolute byte span of the occurrence within its line.
    pub closed spec fn span(&self) -> (int, int) {
        (self.start as int, self.end as int)
    }

    /// The matched bytes.
    pub closed spec fn text_view(&self) -> Seq<u8> {
        self.text@
    }

    /// Byte offset at which the occurrence starts, relative to the full line.
    pub fn start(&self) -> (r: usize)
        ensures
            r as int == self.span().0,
    {
        self.start
    }

    /// Byte offset just past the occurrence, relative to the full line.
    pub fn end(&self) -> (r: usize)
        ensures
            r as int == self.span().1,
    {
        self.end
    }

    /// The matched bytes themselves.
    pub fn as_bytes(&self) -> (r: &Vec<u8>)
        ensures
            r@ == self.text_view(),
    {
        &self.text
    }
}

/// Walks one line left to right, extracting an ordered, non-overlapping
/// sequence of pattern occurrences. Borrows the line and the matcher; owns
/// only its cursor: the current search position, monotonically
/// non-decreasing over one scan.
pub struct RegexSliceIterator<'p, 'l> {
    pattern: &'p Matcher,
    line: &'l Vec<u8>,
    current_pos: usize,
}

impl<'p, 'l> RegexSliceIterator<'p, 'l> {
    /// The pattern text being searched for.
    pub closed spec fn pattern_view(&self) -> Seq<char> {
        self.pattern.pattern()
    }

    /// The line being scanned.
    pub closed spec fn line_view(&self) -> Seq<u8> {
        self.line@
    }

    /// The current search position.
    pub closed spec fn cursor(&self) -> int {
        self.current_pos as int
    }

    /// The cursor never leaves the line.
    pub open spec fn wf(&self) -> bool {
        0 <= self.cursor() <= self.line_view().len()
    }

    /// A fresh scan of `line` for `pattern`, with the cursor at its start.
    pub fn new(pattern: &'p Matcher, line: &'l Vec<u8>) -> (r: RegexSliceIterator<'p, 'l>)
        ensures
            r.wf(),
            r.pattern_view() == pattern.pattern(),
            r.line_view() == line@,
            r.cursor() == 0,
    {
        RegexSliceIterator { pattern, line, current_pos: 0 }
    }

    /// One segmentation step. A cursor at or past the end of the line is
    /// terminal: no further occurrence ever follows. Otherwise the engine is
    /// asked for the first occurrence in the suffix at the cursor; when none
    /// is found the cursor jumps to the line end (terminal), and when one is
    /// found it is emitted at absolute offsets, with its bytes, and the
    /// cursor advances to `next_cursor` — always strictly forward.
    pub fn next(&mut self) -> (r: Option<RegexSliceMatch>)
        requires
            old(self).wf(),
        ensures
            final(self).wf(),
            final(self).line_view() == old(self).line_view(),
            final(self).pattern_view() == old(self).pattern_view(),
            final(self).cursor() >= old(self).cursor(),
            ({
                let line = old(self).line_view();
                let cur = old(self).cursor();
                if cur >= line.len() {
                    r is None && final(self).cursor() == cur
                } else {
                    match regex_find(
                        old(self).pattern_view(),
                        line.subrange(cur, line.len() as int),
                    ) {
                        Option::None => r is None && final(self).cursor() == line.len(),
                        Option::Some(p) => r matches Some(m) && 0 <= p.0 && p.0 <= p.1 && cur + p.1
                            <= line.len() && m.span() == (cur + p.0, cur + p.1) && m.text_view()
                            == line.subrange(cur + p.0, cur + p.1) && final(self).cursor()
                            == next_cursor(cur, p.0, p.1, line.len() as int) && final(self).cursor()
                            > cur,
                    }
                }
            }),
    {
        if self.current_pos >= self.line.len() {
            return None;
        }
        let maybe_match = self.pattern.find_in_suffix(self.line, self.current_pos);
        match maybe_match {
            Some((s, e)) => {
                let prev_pos: usize = self.current_pos;
                let abs_start: usize = prev_pos + s;
                let abs_end: usize = prev_pos + e;
                let text = copy_range(self.line, abs_start, abs_end);
                if s == e {
                    if abs_end < self.line.len() {
                        self.current_pos = abs_end + 1;
                    } else {
                        self.current_pos = self.line.len();
                    }
                } else {
                    self.current_pos = abs_end;
                }
                Some(RegexSliceMatch { start: abs_start, end: abs_end, text })
            },
            None => {
                self.current_pos = self.line.len();
                None
            },
        }
    }
}

/// Collects every occurrence the segmenter emits for the line, in scan
/// order: exactly the spans of `match_spans`, each with a copy of its bytes.
pub fn find_matches(pattern: &Matcher, line: &Vec<u8>) -> (r: Vec<RegexSliceMatch>)
    ensures
        r@.map_values(|m: RegexSliceMatch| m.span()) == match_spans(pattern.pattern(), line@),
        forall|i: int|
            0 <= i < r@.len() ==> (#[trigger] r@[i]).text_view() == line@.subrange(
                r@[i].span().0,
                r@[i].span().1,
            ),
{
    let ghost line_seq = line@;
    let mut it = RegexSliceIterator::new(pattern, line);
    let mut r: Vec<RegexSliceMatch> = Vec::new();
    proof {
        assert(r@.map_values(|m: RegexSliceMatch| m.span()) + spans_from(
            pattern.pattern(),
            line_seq,
            0,
        ) =~= spans_from(pattern.pattern(), line_seq, 0));
    }
    loop
        invariant
            it.wf(),
            it.line_view() == line_seq,
            it.pattern_view() == pattern.pattern(),
            match_spans(pattern.pattern(), line_seq) == r@.map_values(
                |m: RegexSliceMatch| m.span(),
            ) + spans_from(pattern.pattern(), line_seq, it.cursor()),
            forall|i: int|
                0 <= i < r@.len() ==> (#[trigger] r@[i]).text_view() == line_seq.subrange(
                    r@[i].span().0,
                    r@[i].span().1,
                ),
        ensures
            r@.map_values(|m: RegexSliceMatch| m.span()) == match_spans(pattern.pattern(), line_seq),
        decreases line_seq.len() - it.cursor(),
    {
        let ghost old_r = r@;
        let ghost cur: int = it.cursor();
        match it.next() {
            Some(m) => {
                r.push(m);
                proof {
                    assert(r@.map_values(|m: RegexSliceMatch| m.span()) =~= old_r.map_values(
                        |m: RegexSliceMatch| m.span(),
                    ).push(m.span()));
                    assert(old_r.map_values(|m: RegexSliceMatch| m.span()).push(m.span())
                        + spans_from(pattern.pattern(), line_seq, it.cursor())
                        =~= old_r.map_values(|m: RegexSliceMatch| m.span()) + spans_from(
                        pattern.pattern(),
                        line_seq,
                        cur,
                    ));
                }
            },
            None => {
                proof {
                    assert(spans_from(pattern.pattern(), line_seq, it.cursor()) =~= Seq::empty());
                    assert(r@.map_values(|m: RegexSliceMatch| m.span()) + Seq::empty()
                        =~= r@.map_values(|m: RegexSliceMatch| m.span()));
                }
                break ;
            },
        }
    }
    r
}

} // verus!
