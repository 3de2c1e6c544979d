//! Coded diagnostics. An `Error` pins the failing source span, a message,
//! and a code from the closed taxonomy; rendering produces the fixed
//! caret-annotated layout. Printing the rendered block and aborting the
//! pipeline are left to the embedding program.

use vstd::prelude::*;

use crate::location::Location;
use crate::text::{decimal_width, push_chars, push_str_chars, repeat_char, spec_decimal,
    string_from_chars};

verus! {

/// The closed error taxonomy.
#[derive(Debug, Copy, Clone, PartialEq, Eq, Structural)]
pub enum ErrorCode {
    Unknown,
    UnexpectedToken,
    IncorrectParsingType,
    InvalidStatement,
    InvalidExpression,
    ReservedNameUsed,
    TypeMismatch,
    VariableNotFound,
}

impl ErrorCode {
    /// The numeric code rendered in the `E####` header.
    pub open spec fn spec_code(&self) -> u32 {
        match self {
            ErrorCode::Unknown => 0,
            ErrorCode::UnexpectedToken => 1,
            ErrorCode::IncorrectParsingType => 2,
            ErrorCode::InvalidStatement => 3,
            ErrorCode::InvalidExpression => 4,
            ErrorCode::ReservedNameUsed => 5,
            ErrorCode::TypeMismatch => 6,
            ErrorCode::VariableNotFound => 7,
        }
    }

    pub fn code(&self) -> (c: u32)
        ensures
            c == self.spec_code(),
    {
        match self {
            ErrorCode::Unknown => 0,
            ErrorCode::UnexpectedToken => 1,
            ErrorCode::IncorrectParsingType => 2,
            ErrorCode::InvalidStatement => 3,
            ErrorCode::InvalidExpression => 4,
            ErrorCode::ReservedNameUsed => 5,
            ErrorCode::TypeMismatch => 6,
            ErrorCode::VariableNotFound => 7,
        }
    }

    /// The name rendered after the code in the header.
    pub open spec fn spec_name(&self) -> Seq<char> {
        match self {
            ErrorCode::Unknown => "Unknown"@,
            ErrorCode::UnexpectedToken => "UnexpectedToken"@,
            ErrorCode::IncorrectParsingType => "IncorrectParsingType"@,
            ErrorCode::InvalidStatement => "InvalidStatement"@,
            ErrorCode::InvalidExpression => "InvalidExpression"@,
            ErrorCode::ReservedNameUsed => "ReservedNameUsed"@,
            ErrorCode::TypeMismatch => "TypeMismatch"@,
            ErrorCode::VariableNotFound => "VariableNotFound"@,
        }
    }

    pub fn name(&self) -> (n: &'static str)
        ensures
            n@ == self.spec_name(),
    {
        match self {
            ErrorCode::Unknown => "Unknown",
            ErrorCode::UnexpectedToken => "UnexpectedToken",
            ErrorCode::IncorrectParsingType => "IncorrectParsingType",
            ErrorCode::InvalidStatement => "InvalidStatement",
            ErrorCode::InvalidExpression => "InvalidExpression",
            ErrorCode::ReservedNameUsed => "ReservedNameUsed",
            ErrorCode::TypeMismatch => "TypeMismatch",
            ErrorCode::VariableNotFound => "VariableNotFound",
        }
    }
}

/// A fatal diagnostic: the source lines it was raised against, a message,
/// the offending span, and its code.
#[derive(Debug)]
pub struct Error {
    pub lines: Vec<String>,
    pub msg: String,
    pub start: Location,
    pub end: Location,
    pub id: ErrorCode,
}

impl Error {
    pub fn new(lines: Vec<String>, msg: String, start: Location, end: Location, id: ErrorCode) -> (e:
        Error)
        ensures
            e.lines == lines,
            e.msg == msg,
            e.start == start,
            e.end == end,
            e.id == id,
    {
        Error { lines, msg, start, end, id }
    }
}

/// The number of digits in the decimal rendering of `num`.
pub fn size(num: u32) -> (w: usize)
    ensures
        w == spec_decimal(num as int).len(),
        1 <= w <= 10,
{
    decimal_width(num)
}

/// `n` copies of one character, as a sequence.
pub open spec fn spec_repeat(c: char, n: int) -> Seq<char> {
    Seq::new(n as nat, |i: int| c)
}

/// The header line: `E####  <name>:` with the code zero-padded to four
/// digits (codes are single digits, so three zeros are fixed).
pub open spec fn spec_header(id: ErrorCode) -> Seq<char> {
    "E000"@ + seq![crate::text::spec_digit_char(id.spec_code() as int)] + " "@ + id.spec_name()
    + ":\n"@
}

/// One rendered source line: the one-based line number, a dot, a space,
/// padding up to the widest line number shown, then the line itself.
pub open spec fn spec_source_line(lines: Seq<Seq<char>>, i: int, num_size: int) -> Seq<char> {
    spec_decimal(i + 1) + ". "@ + spec_repeat(' ', num_size - spec_decimal(i + 1).len()) + lines[i]
    + "\n"@
}

/// The rendered source lines `from .. upto` (zero-based, `upto` exclusive),
/// in order.
pub open spec fn spec_source_block(
    lines: Seq<Seq<char>>,
    from: int,
    upto: int,
    num_size: int,
) -> Seq<char>
    decreases upto - from,
{
    if from >= upto {
        Seq::empty()
    } else {
        spec_source_block(lines, from, upto - 1, num_size) + spec_source_line(
            lines,
            upto - 1,
            num_size,
        )
    }
}

/// The sum of the lengths of the first `k` lines, counting one character
/// for each line's terminating newline.
pub open spec fn spec_line_span(lines: Seq<Seq<char>>, k: int) -> int
    decreases k,
{
    if k <= 0 {
        0
    } else {
        spec_line_span(lines, k - 1) + lines[k - 1].len() + 1
    }
}

/// Where the caret run ends: at the span's end offset when the span closes
/// on its starting line, otherwise at the last character of the starting
/// line.
pub open spec fn spec_caret_end(e: Error) -> int {
    if e.end.row == e.start.row {
        e.end.idx as int
    } else {
        spec_line_span(e.lines@.map_values(|s: String| s@), e.start.row as int + 1) - 1
    }
}

/// The caret line: indentation past the line-number margin and the start
/// column, then at least one caret per spanned character.
pub open spec fn spec_caret_line(e: Error, num_size: int) -> Seq<char> {
    spec_repeat(' ', num_size + e.start.col as int + 2) + spec_repeat(
        '^',
        if spec_caret_end(e) - e.start.idx >= 1 {
            spec_caret_end(e) - e.start.idx
        } else {
            1
        },
    ) + "\n"@
}

/// The trailing line: the message and the one-based row and column of the
/// span's start.
pub open spec fn spec_trailer(e: Error) -> Seq<char> {
    e.msg@ + " ("@ + spec_decimal(e.start.row as int + 1) + ":"@ + spec_decimal(
        e.start.col as int + 1,
    ) + ")\n"@
}

/// The first (zero-based) source line shown: at most four lines above the
/// offending one.
pub open spec fn spec_first_shown(e: Error) -> int {
    if e.start.row >= 4 {
        e.start.row - 4
    } else {
        0
    }
}

/// The whole rendered diagnostic block.
pub open spec fn spec_render(e: Error) -> Seq<char> {
    let num_size = spec_decimal(e.start.row as int + 1).len() as int;
    spec_header(e.id) + spec_source_block(
        e.lines@.map_values(|s: String| s@),
        spec_first_shown(e),
        e.start.row as int + 1,
        num_size,
    ) + spec_caret_line(e, num_size) + spec_trailer(e)
}

/// Positions that make the fixed layout renderable: the offending row is
/// among the lines, the span runs forward, and the arithmetic the layout
/// calls for stays within machine bounds.
pub open spec fn spec_renderable(e: Error) -> bool {
    &&& e.start.row < e.lines@.len()
    &&& e.start.row < u32::MAX
    &&& e.start.col < u32::MAX
    &&& e.start.col as int + 12 <= usize::MAX
    &&& spec_line_span(e.lines@.map_values(|s: String| s@), e.start.row as int + 1) <= u32::MAX
    &&& e.start.idx <= spec_caret_end(e)
    &&& spec_caret_end(e) <= u32::MAX
}

impl Error {
    /// Render the diagnostic in the fixed layout: an `E####  <name>:`
    /// header, up to five source lines ending at the offending one, a
    /// caret line under the offending span, and the message with the
    /// one-based position.
    pub fn render(&self) -> (r: String)
        requires
            spec_renderable(*self),
        ensures
            r@ == spec_render(*self),
    {
        let ghost linesv = self.lines@.map_values(|s: String| s@);
        let row = self.start.row;
        let col = self.start.col;
        let idx = self.start.idx;

        let end_idx: u32 = if self.end.row == row {
            self.end.idx
        } else {
            let mut sum: u64 = 0;
            let mut k: usize = 0;
            while k < row as usize + 1
                invariant
                    spec_renderable(*self),
                    linesv == self.lines@.map_values(|s: String| s@),
                    row == self.start.row,
                    row < self.lines@.len(),
                    row < u32::MAX,
                    k <= row + 1,
                    sum == spec_line_span(linesv, k as int),
                    sum <= u32::MAX,
                decreases row + 1 - k,
            {
                proof {
                    lemma_line_span_monotone(linesv, k as int + 1, row as int + 1);
                }
                sum = sum + self.lines[k].as_str().unicode_len() as u64 + 1;
                k = k + 1;
            }
            (sum - 1) as u32
        };

        proof {
            assert(end_idx == spec_caret_end(*self));
        }
        let num_size = size(row + 1);

        let mut out: Vec<char> = Vec::new();

        // Header
        push_str_chars(&mut out, "E000");
        out.push(crate::text::digit_char_pub(self.id.code()));
        push_str_chars(&mut out, " ");
        push_str_chars(&mut out, self.id.name());
        push_str_chars(&mut out, ":\n");
        proof {
            assert(out@ =~= spec_header(self.id));
        }

        // Source lines
        let first: u32 = if row >= 4 {
            row - 4
        } else {
            0
        };
        let mut i: u32 = first;
        while i < row + 1
            invariant
                spec_renderable(*self),
                linesv == self.lines@.map_values(|s: String| s@),
                row == self.start.row,
                row < self.lines@.len(),
                row < u32::MAX,
                first == spec_first_shown(*self),
                num_size == spec_decimal(row as int + 1).len(),
                1 <= num_size <= 10,
                first <= i <= row + 1,
                out@ == spec_header(self.id) + spec_source_block(
                    linesv,
                    first as int,
                    i as int,
                    num_size as int,
                ),
            decreases row + 1 - i,
        {
            proof {
                crate::text::lemma_decimal_len_monotone(i as int + 1, row as int + 1);
            }
            let line_num = i + 1;
            let digits = crate::text::decimal_chars(line_num);
            let ghost before = out@;
            push_chars(&mut out, &digits);
            push_str_chars(&mut out, ". ");
            let pad = repeat_char(' ', num_size - size(line_num));
            push_chars(&mut out, &pad);
            push_str_chars(&mut out, self.lines[i as usize].as_str());
            push_str_chars(&mut out, "\n");
            proof {
                assert(pad@ =~= spec_repeat(' ', num_size - spec_decimal(i as int + 1).len()));
                assert(out@ =~= before + spec_source_line(linesv, i as int, num_size as int));
            }
            i = i + 1;
        }

        // Caret line
        let ghost before_caret = out@;
        let lead = repeat_char(' ', num_size + col as usize + 2);
        push_chars(&mut out, &lead);
        let width: u32 = if end_idx > idx {
            end_idx - idx
        } else {
            1
        };
        let carets = repeat_char('^', width as usize);
        push_chars(&mut out, &carets);
        push_str_chars(&mut out, "\n");
        proof {
            assert(lead@ =~= spec_repeat(' ', num_size + self.start.col as int + 2));
            assert(carets@ =~= spec_repeat(
                '^',
                if spec_caret_end(*self) - self.start.idx >= 1 {
                    spec_caret_end(*self) - self.start.idx
                } else {
                    1
                },
            ));
            assert(out@ =~= before_caret + spec_caret_line(*self, num_size as int));
        }

        // Trailer
        let ghost before_tail = out@;
        push_str_chars(&mut out, self.msg.as_str());
        push_str_chars(&mut out, " (");
        let rd = crate::text::decimal_chars(row + 1);
        push_chars(&mut out, &rd);
        push_str_chars(&mut out, ":");
        let cd = crate::text::decimal_chars(col + 1);
        push_chars(&mut out, &cd);
        push_str_chars(&mut out, ")\n");
        proof {
            assert(out@ =~= before_tail + spec_trailer(*self));
            assert(out@ =~= spec_render(*self));
        }

        string_from_chars(&out)
    }
}

/// Prefix sums of line lengths only grow.
proof fn lemma_line_span_monotone(lines: Seq<Seq<char>>, j: int, k: int)
    requires
        0 <= j <= k,
    ensures
        spec_line_span(lines, j) <= spec_line_span(lines, k),
    decreases k - j,
{
    if j < k {
        lemma_line_span_monotone(lines, j, k - 1);
    }
}

} // verus!
