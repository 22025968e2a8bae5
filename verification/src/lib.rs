use vstd::prelude::*;

pub mod buffer_lines_iterator;
pub mod matcher;
pub mod regex_slice_iterator;
pub mod render;

use crate::buffer_lines_iterator::{
    lines_from, lines_of, trim_newline, BufferLinesIterator,
};
use crate::matcher::Matcher;
use crate::regex_slice_iterator::match_spans;
use crate::render::{render_line, render_of, RenderedLine, Segment};

verus! {

/// Copies the bytes of `line` in `[from, to)` into a fresh owned vector.
pub fn copy_range(line: &Vec<u8>, from: usize, to: usize) -> (r: Vec<u8>)
    requires
        from <= to <= line@.len(),
    ensures
        r@ == line@.subrange(from as int, to as int),
{
    let mut r: Vec<u8> = Vec::new();
    let mut i: usize = from;
    while i < to
        invariant
            from <= i <= to <= line@.len(),
            r@ == line@.subrange(from as int, i as int),
        decreases to - i,
    {
        r.push(line[i]);
        proof {
            assert(line@.subrange(from as int, i as int).push(line@[i as int]) =~= line@.subrange(
                from as int,
                i as int + 1,
            ));
        }
        i = i + 1;
    }
    r
}

/// Error type shared by every fallible step of the scan: a single
/// human-readable message wrapping the underlying failure's description.
#[derive(Debug)]
pub struct FileGrepError(String);

impl View for FileGrepError {
    type V = Seq<char>;

    closed spec fn view(&self) -> Seq<char> {
        self.0@
    }
}

impl FileGrepError {
    /// Wraps a failure description into the flat error taxonomy.
    pub fn new(message: String) -> (r: FileGrepError)
        ensures
            r@ == message@,
    {
        FileGrepError(message)
    }

    /// The human-readable payload carried by this error.
    pub fn message(&self) -> (r: &String)
        ensures
            r@ == self@,
    {
        &self.0
    }
}

/// The two inputs of a scan, as read from the command line:
/// the textual pattern and the path of the file to search.
#[derive(Debug)]
pub struct GrepConfig {
    pub pattern: String,
    pub path: String,
}

impl GrepConfig {
    /// Pops the next command-line argument, or fails with the
    /// missing-argument message.
    fn expect_cli_arg(args: &mut Vec<String>) -> (r: Result<String, FileGrepError>)
        ensures
            old(args)@.len() > 0 ==> r is Ok && r->Ok_0 == old(args)@[0] && final(args)@ == old(
                args,
            )@.remove(0),
            old(args)@.len() == 0 ==> r is Err && r->Err_0@ == "Not enough command line paramters"@
                && final(args)@ == old(args)@,
    {
        if args.len() == 0 {
            Err(FileGrepError::new(String::from_str("Not enough command line paramters")))
        } else {
            Ok(args.remove(0))
        }
    }

    /// Builds the configuration from the full argument vector, whose first
    /// entry is the program name. Fails whenever fewer than two arguments
    /// follow the program name.
    pub fn from_cli(mut args: Vec<String>) -> (r: Result<GrepConfig, FileGrepError>)
        ensures
            args@.len() >= 3 ==> r is Ok && r->Ok_0.pattern == args@[1] && r->Ok_0.path
                == args@[2],
            args@.len() < 3 ==> r is Err && r->Err_0@ == "Not enough command line paramters"@,
    {
        match Self::expect_cli_arg(&mut args) {
            Ok(_) => (),
            Err(e) => {
                return Err(e);
            },
        }
        let pattern = match Self::expect_cli_arg(&mut args) {
            Ok(p) => p,
            Err(e) => {
                return Err(e);
            },
        };
        let path = match Self::expect_cli_arg(&mut args) {
            Ok(p) => p,
            Err(e) => {
                return Err(e);
            },
        };
        Ok(GrepConfig { pattern, path })
    }
}

/// Drops the record's trailing newline, if it carries one, copying the rest.
pub fn trim_line(line: &Vec<u8>) -> (r: Vec<u8>)
    ensures
        r@ == trim_newline(line@),
{
    if line.len() > 0 && line[line.len() - 1] == 10u8 {
        let r = copy_range(line, 0, line.len() - 1);
        proof {
            assert(line@.subrange(0, line@.len() - 1) =~= trim_newline(line@));
        }
        r
    } else {
        let r = copy_range(line, 0, line.len());
        proof {
            assert(line@.subrange(0, line@.len() as int) =~= line@);
        }
        r
    }
}

/// Whether the pattern occurs in record `i` of the stream, once the record's
/// trailing newline is trimmed.
pub open spec fn line_matches(pattern: Seq<char>, lines: Seq<Seq<u8>>, i: int) -> bool {
    match_spans(pattern, trim_newline(lines[i])).len() > 0
}

/// Scans the whole input stream: splits it into newline-terminated records,
/// trims each record's trailing newline, and renders every record in which
/// the pattern occurs, labelled with the zero-based position of the record
/// in the stream. A record in which the pattern does not occur produces no
/// output at all; the index counts it nevertheless.
pub fn grep(pattern: &Matcher, input: Vec<u8>) -> (r: Vec<RenderedLine>)
    ensures
        ({
            let lines = lines_of(input@);
            let pat = pattern.pattern();
            &&& forall|j: int|
                0 <= j < r@.len() ==> {
                    let idx = (#[trigger] r@[j]).index as int;
                    &&& 0 <= idx < lines.len()
                    &&& line_matches(pat, lines, idx)
                    &&& r@[j].segments@.map_values(|s: Segment| s@) == render_of(
                        trim_newline(lines[idx]),
                        match_spans(pat, trim_newline(lines[idx])),
                        0,
                    )
                }
            &&& forall|j1: int, j2: int|
                0 <= j1 < j2 < r@.len() ==> (#[trigger] r@[j1]).index < (#[trigger] r@[j2]).index
            &&& forall|i: int|
                0 <= i < lines.len() && line_matches(pat, lines, i) ==> exists|j: int|
                    0 <= j < r@.len() && (#[trigger] r@[j]).index == i
        }),
{
    let ghost stream = input@;
    let ghost lines = lines_of(stream);
    let ghost pat = pattern.pattern();
    // The stream fits in memory, so every line index fits in usize too.
    let input_len: usize = input.len();
    proof {
        assert(stream.len() == input_len as int);
    }
    let mut reader = BufferLinesIterator::new(input);
    let mut r: Vec<RenderedLine> = Vec::new();
    let mut index: usize = 0;
    proof {
        buffer_lines_iterator::lemma_lines_from_len(stream, 0);
        assert(lines.skip(0) =~= lines);
    }
    loop
        invariant
            reader.wf(),
            reader.stream() == stream,
            lines == lines_of(stream),
            pat == pattern.pattern(),
            stream.len() <= usize::MAX,
            (index as int) <= lines.len(),
            lines.len() <= stream.len(),
            lines_from(stream, reader.cursor()) == lines.skip(index as int),
            forall|j: int| 0 <= j < r@.len() ==> (#[trigger] r@[j]).index < index,
            forall|j: int|
                0 <= j < r@.len() ==> {
                    let idx = (#[trigger] r@[j]).index as int;
                    &&& 0 <= idx < lines.len()
                    &&& line_matches(pat, lines, idx)
                    &&& r@[j].segments@.map_values(|s: Segment| s@) == render_of(
                        trim_newline(lines[idx]),
                        match_spans(pat, trim_newline(lines[idx])),
                        0,
                    )
                },
            forall|j1: int, j2: int|
                0 <= j1 < j2 < r@.len() ==> (#[trigger] r@[j1]).index < (#[trigger] r@[j2]).index,
            forall|i: int|
                0 <= i < index && line_matches(pat, lines, i) ==> exists|j: int|
                    0 <= j < r@.len() && (#[trigger] r@[j]).index == i,
        ensures
            index as int == lines.len(),
        decreases stream.len() - reader.cursor(),
    {
        let ghost old_cursor: int = reader.cursor();
        match reader.next() {
            Some(rec) => {
                proof {
                    buffer_lines_iterator::lemma_line_end_bounds(stream, old_cursor);
                    let e: int = buffer_lines_iterator::line_end(stream, old_cursor);
                    assert(lines_from(stream, old_cursor) == seq![stream.subrange(old_cursor, e)]
                        + lines_from(stream, e));
                    assert(lines.skip(index as int).len() > 0);
                    assert((index as int) < lines.len());
                    assert(lines.skip(index as int)[0] == lines[index as int]);
                    assert(lines[index as int] == rec@);
                    assert(lines_from(stream, old_cursor).drop_first() =~= lines_from(stream, e));
                    assert(lines.skip(index as int).drop_first() =~= lines.skip(index as int + 1));
                    assert(lines_from(stream, reader.cursor()) =~= lines.skip(index as int + 1));
                }
                let trimmed = trim_line(&rec);
                match render_line(pattern, &trimmed) {
                    Some(segments) => {
                        let ghost old_r = r@;
                        r.push(RenderedLine { index, segments });
                        proof {
                            assert(forall|j: int|
                                0 <= j < old_r.len() ==> r@[j] == old_r[j]);
                            assert(r@[old_r.len() as int].index == index);
                        }
                    },
                    None => {
                        proof {
                            assert(!line_matches(pat, lines, index as int));
                        }
                    },
                }
                index = index + 1;
            },
            None => {
                proof {
                    assert(lines.skip(index as int).len() == 0);
                }
                break ;
            },
        }
    }
    r
}

/// Adapter applied at each fallible boundary call: a success passes through
/// unchanged, a failure is wrapped — its description becomes the message of
/// the library's flat error type.
pub trait ConvertibleToGrepResult<T>: Sized {
    /// Whether this value is the success outcome.
    spec fn spec_is_ok(&self) -> bool;

    /// The success value carried, where there is one.
    spec fn spec_value(&self) -> T;

    fn to_grep_result(self) -> (r: Result<T, FileGrepError>)
        ensures
            self.spec_is_ok() ==> r is Ok && r->Ok_0 == self.spec_value(),
            !self.spec_is_ok() ==> r is Err,
    ;
}

impl<T> ConvertibleToGrepResult<T> for Result<T, regex::Error> {
    open spec fn spec_is_ok(&self) -> bool {
        self is Ok
    }

    open spec fn spec_value(&self) -> T {
        self->Ok_0
    }

    fn to_grep_result(self) -> Result<T, FileGrepError> {
        match self {
            Ok(value) => Ok(value),
            Err(error) => Err(FileGrepError::new(crate::matcher::regex_error_message(&error))),
        }
    }
}

} // verus!
