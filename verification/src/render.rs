use vstd::prelude::*;
use crate::copy_range;
use crate::matcher::Matcher;
use crate::regex_slice_iterator::{
    find_matches, lemma_match_spans_ordered, match_spans, spans_well_formed, RegexSliceMatch,
};

verus! {

/// One piece of a rendered line: literal bytes, marked as a pattern
/// occurrence or as the gap text around occurrences. The distinction is what
/// lets a driver style occurrences differently from the rest of the line.
pub struct Segment {
    pub text: Vec<u8>,
    pub is_match: bool,
}

/// The mathematical shadow of a `Segment`.
pub struct SegmentModel {
    pub text: Seq<u8>,
    pub is_match: bool,
}

impl View for Segment {
    type V = SegmentModel;

    open spec fn view(&self) -> SegmentModel {
        SegmentModel { text: self.text@, is_match: self.is_match }
    }
}

/// One line of output: the zero-based index of the record in the stream and
/// the rendered segments of its trimmed text.
pub struct RenderedLine {
    pub index: usize,
    pub segments: Vec<Segment>,
}

/// The rendering of `line` cut along `spans`, the cut having reached `from`:
/// the gap since the previous occurrence, each occurrence itself, and after
/// the last occurrence the remaining tail of the line. Gaps and occurrences
/// alternate, beginning and ending with a (possibly empty) gap.
pub open spec fn render_of(line: Seq<u8>, spans: Seq<(int, int)>, from: int) -> Seq<SegmentModel>
    decreases spans.len(),
{
    if spans.len() == 0 {
        seq![SegmentModel { text: line.subrange(from, line.len() as int), is_match: false }]
    } else {
        seq![
            SegmentModel { text: line.subrange(from, spans[0].0), is_match: false },
            SegmentModel { text: line.subrange(spans[0].0, spans[0].1), is_match: true },
        ] + render_of(line, spans.drop_first(), spans[0].1)
    }
}

/// The bytes of a rendered line, concatenated back in order.
pub open spec fn concat_segments(segs: Seq<SegmentModel>) -> Seq<u8>
    decreases segs.len(),
{
    if segs.len() == 0 {
        Seq::empty()
    } else {
        segs[0].text + concat_segments(segs.drop_first())
    }
}

/// Law: rendering loses and duplicates nothing — concatenating
/// [gap, match, gap, match, ..., gap] reconstructs the line exactly (here,
/// its suffix from `from` on, cut along any ordered, in-bounds spans).
pub proof fn lemma_render_round_trip(line: Seq<u8>, spans: Seq<(int, int)>, from: int)
    requires
        0 <= from <= line.len(),
        spans_well_formed(spans, from, line.len() as int),
    ensures
        concat_segments(render_of(line, spans, from)) =~= line.subrange(from, line.len() as int),
    decreases spans.len(),
{
    let segs = render_of(line, spans, from);
    if spans.len() == 0 {
        assert(segs.drop_first() =~= Seq::<SegmentModel>::empty());
        assert(concat_segments(segs.drop_first()) =~= Seq::<u8>::empty());
        assert(concat_segments(segs) == segs[0].text + concat_segments(segs.drop_first()));
        assert(concat_segments(segs) =~= line.subrange(from, line.len() as int));
    } else {
        let rest = spans.drop_first();
        let s0 = spans[0];
        assert(spans_well_formed(rest, s0.1, line.len() as int)) by {
            assert(forall|i: int|
                0 <= i < rest.len() ==> (#[trigger] rest[i]) == spans[i + 1]);
        }
        lemma_render_round_trip(line, rest, s0.1);
        let tail_segs = render_of(line, rest, s0.1);
        assert(segs.drop_first() =~= seq![
            SegmentModel { text: line.subrange(s0.0, s0.1), is_match: true },
        ] + tail_segs);
        assert(segs.drop_first().drop_first() =~= tail_segs);
        let d1 = segs.drop_first();
        assert(concat_segments(d1) == d1[0].text + concat_segments(d1.drop_first()));
        assert(d1[0].text == line.subrange(s0.0, s0.1));
        assert(concat_segments(segs) == segs[0].text + concat_segments(d1));
        assert(segs[0].text == line.subrange(from, s0.0));
        assert(concat_segments(segs) =~= line.subrange(from, s0.0) + line.subrange(s0.0, s0.1)
            + concat_segments(tail_segs));
        assert(concat_segments(segs) =~= line.subrange(from, line.len() as int));
    }
}

/// Law, at the segmenter's own spans: for every pattern and line, the
/// rendering cut along `match_spans` concatenates back to the line itself.
pub proof fn lemma_line_round_trip(pattern: Seq<char>, line: Seq<u8>)
    ensures
        concat_segments(render_of(line, match_spans(pattern, line), 0)) =~= line,
{
    lemma_match_spans_ordered(pattern, line);
    lemma_render_round_trip(line, match_spans(pattern, line), 0);
    assert(line.subrange(0, line.len() as int) =~= line);
}

/// Renders one line against a compiled pattern. A line in which the pattern
/// does not occur produces nothing at all; otherwise the alternating gap and
/// occurrence segments of `render_of`, in order.
pub fn render_line(pattern: &Matcher, line: &Vec<u8>) -> (r: Option<Vec<Segment>>)
    ensures
        ({
            let spans = match_spans(pattern.pattern(), line@);
            match r {
                Option::None => spans.len() == 0,
                Option::Some(segs) => spans.len() > 0 && segs@.map_values(|s: Segment| s@)
                    == render_of(line@, spans, 0),
            }
        }),
{
    let matches = find_matches(pattern, line);
    if matches.len() == 0 {
        proof {
            assert(match_spans(pattern.pattern(), line@).len() == 0);
        }
        return None;
    }
    let ghost spans = match_spans(pattern.pattern(), line@);
    proof {
        lemma_match_spans_ordered(pattern.pattern(), line@);
    }
    let mut segs: Vec<Segment> = Vec::new();
    let mut k: usize = 0;
    let mut prev_end: usize = 0;
    proof {
        assert(spans.skip(0) =~= spans);
        assert(segs@.map_values(|s: Segment| s@) + render_of(line@, spans, 0) =~= render_of(
            line@,
            spans,
            0,
        ));
    }
    while k < matches.len()
        invariant
            0 < matches@.len(),
            matches@.map_values(|m: RegexSliceMatch| m.span()) == spans,
            spans_well_formed(spans, 0, line@.len() as int),
            0 <= k <= matches@.len(),
            prev_end as int == if k == 0 {
                0int
            } else {
                spans[k - 1].1
            },
            prev_end <= line@.len(),
            render_of(line@, spans, 0) == segs@.map_values(|s: Segment| s@) + render_of(
                line@,
                spans.skip(k as int),
                prev_end as int,
            ),
        decreases matches@.len() - k,
    {
        let ghost old_segs = segs@;
        let ghost rem = spans.skip(k as int);
        let m_start: usize = matches[k].start();
        let m_end: usize = matches[k].end();
        proof {
            assert(spans[k as int] == matches@.map_values(|m: RegexSliceMatch| m.span())[k as int]);
            assert(rem[0] == spans[k as int]);
        }
        let gap = copy_range(line, prev_end, m_start);
        segs.push(Segment { text: gap, is_match: false });
        let occurrence = copy_range(line, m_start, m_end);
        segs.push(Segment { text: occurrence, is_match: true });
        proof {
            assert(rem.drop_first() =~= spans.skip(k as int + 1));
            assert(render_of(line@, rem, prev_end as int) =~= seq![
                SegmentModel { text: line@.subrange(prev_end as int, rem[0].0), is_match: false },
                SegmentModel { text: line@.subrange(rem[0].0, rem[0].1), is_match: true },
            ] + render_of(line@, spans.skip(k as int + 1), rem[0].1));
            assert(segs@.map_values(|s: Segment| s@) =~= old_segs.map_values(|s: Segment| s@)
                + seq![
                SegmentModel { text: line@.subrange(prev_end as int, rem[0].0), is_match: false },
                SegmentModel { text: line@.subrange(rem[0].0, rem[0].1), is_match: true },
            ]);
            assert(render_of(line@, spans, 0) =~= segs@.map_values(|s: Segment| s@) + render_of(
                line@,
                spans.skip(k as int + 1),
                rem[0].1,
            ));
        }
        prev_end = m_end;
        k = k + 1;
    }
    proof {
        assert(spans.skip(k as int) =~= Seq::<(int, int)>::empty());
    }
    let tail = copy_range(line, prev_end, line.len());
    segs.push(Segment { text: tail, is_match: false });
    proof {
        assert(render_of(line@, spans.skip(k as int), prev_end as int) =~= seq![
            SegmentModel { text: line@.subrange(prev_end as int, line@.len() as int), is_match: false },
        ]);
        assert(segs@.map_values(|s: Segment| s@) =~= render_of(line@, spans, 0));
    }
    Some(segs)
}

} // verus!
