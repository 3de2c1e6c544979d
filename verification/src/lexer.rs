//! The lexical scanner. It walks the source once, at each position taking
//! the longest symbol spelling that matches (ties broken by catalogue
//! order); characters that start no symbol accumulate in a capture buffer,
//! which closes as one numeric-literal, keyword or identifier token when a
//! symbol or the end of input interrupts it. Whitespace and newlines are
//! ordinary tokens; a separate filter removes pure-whitespace tokens before
//! parsing. A zero-width end-of-stream token closes the sequence.

use vstd::prelude::*;
use vstd::string::*;

use crate::location::Location;
use crate::numeric::{is_numeric, spec_is_numeric};
use crate::text::{chars_of, string_from_chars};
use crate::tokens::{
    dup_bare, dup_token, kind_v, spec_keywords, spec_symbols, symbols, keywords, tok_v, toks_v,
    KindV, Token, TokenV, Type,
};

verus! {

/// Does the spelling `sp` match the source at position `i`? A spelling
/// matches only whole: nothing matches past the end of the source.
pub open spec fn sym_matches_at(src: Seq<char>, i: int, sp: Seq<char>) -> bool {
    sp.len() > 0 && 0 <= i && i + sp.len() <= src.len() && src.subrange(i, i + sp.len()) == sp
}

/// The best (longest; first declared wins ties) symbol match at `i` after
/// also trying the spellings `strs[0..l]` of the symbol `ty`, starting
/// from an earlier candidate `prev` of the form (kind, length).
pub open spec fn best_in(
    src: Seq<char>,
    i: int,
    ty: Type,
    strs: Seq<Seq<char>>,
    l: int,
    prev: (Type, int),
) -> (Type, int)
    decreases l,
{
    if l <= 0 {
        prev
    } else {
        let q = best_in(src, i, ty, strs, l - 1, prev);
        if sym_matches_at(src, i, strs[l - 1]) && strs[l - 1].len() > q.1 {
            (ty, strs[l - 1].len() as int)
        } else {
            q
        }
    }
}

/// The best symbol match at `i` among the first `k` catalogue symbols.
pub open spec fn best_over(src: Seq<char>, i: int, k: int) -> (Type, int)
    decreases k,
{
    if k <= 0 {
        (Type::EOF, 0)
    } else {
        let prev = best_over(src, i, k - 1);
        let ty = spec_symbols()[k - 1];
        best_in(src, i, ty, ty.spec_src_strings(), ty.spec_src_strings().len() as int, prev)
    }
}

/// The symbol the scanner takes at position `i`: the longest catalogue
/// spelling matching there, as (kind, length); length zero when none
/// matches.
pub open spec fn spec_symbol_at(src: Seq<char>, i: int) -> (Type, int) {
    best_over(src, i, spec_symbols().len() as int)
}

/// A candidate is sound when a zero length means the placeholder kind and
/// a positive length means a spelling of that length matches at `i`.
spec fn candidate_ok(src: Seq<char>, i: int, q: (Type, int)) -> bool {
    q.1 == 0 || (q.1 > 0 && i + q.1 <= src.len() && crate::tokens::is_bare(q.0))
}

proof fn lemma_best_in_ok(src: Seq<char>, i: int, ty: Type, strs: Seq<Seq<char>>, l: int, prev: (
    Type,
    int,
))
    requires
        candidate_ok(src, i, prev),
        crate::tokens::is_bare(ty),
    ensures
        candidate_ok(src, i, best_in(src, i, ty, strs, l, prev)),
        best_in(src, i, ty, strs, l, prev).1 >= prev.1,
    decreases l,
{
    if l > 0 {
        lemma_best_in_ok(src, i, ty, strs, l - 1, prev);
    }
}

proof fn lemma_best_over_ok(src: Seq<char>, i: int, k: int)
    requires
        k <= spec_symbols().len(),
    ensures
        candidate_ok(src, i, best_over(src, i, k)),
    decreases k,
{
    if k > 0 {
        lemma_best_over_ok(src, i, k - 1);
        assert(crate::tokens::is_bare(spec_symbols()[k - 1]));
        lemma_best_in_ok(
            src,
            i,
            spec_symbols()[k - 1],
            spec_symbols()[k - 1].spec_src_strings(),
            spec_symbols()[k - 1].spec_src_strings().len() as int,
            best_over(src, i, k - 1),
        );
    }
}

/// The chosen symbol match is sound: a positive length fits within the
/// source, and the kind is a fixed catalogue kind.
pub proof fn lemma_symbol_at_ok(src: Seq<char>, i: int)
    ensures
        spec_symbol_at(src, i).1 >= 0,
        spec_symbol_at(src, i).1 > 0 ==> i + spec_symbol_at(src, i).1 <= src.len(),
        crate::tokens::is_bare(spec_symbol_at(src, i).0),
{
    lemma_best_over_ok(src, i, spec_symbols().len() as int);
    let q = spec_symbol_at(src, i);
    if q.1 == 0 {
        lemma_best_over_zero(src, i, spec_symbols().len() as int);
    }
}

proof fn lemma_best_over_zero(src: Seq<char>, i: int, k: int)
    requires
        k <= spec_symbols().len(),
        best_over(src, i, k).1 == 0,
    ensures
        crate::tokens::is_bare(best_over(src, i, k).0),
    decreases k,
{
    if k > 0 {
        lemma_best_in_zero(
            src,
            i,
            spec_symbols()[k - 1],
            spec_symbols()[k - 1].spec_src_strings(),
            spec_symbols()[k - 1].spec_src_strings().len() as int,
            best_over(src, i, k - 1),
        );
        lemma_best_over_zero(src, i, k - 1);
    }
}

proof fn lemma_best_in_zero(src: Seq<char>, i: int, ty: Type, strs: Seq<Seq<char>>, l: int, prev: (
    Type,
    int,
))
    requires
        best_in(src, i, ty, strs, l, prev).1 == 0,
    ensures
        best_in(src, i, ty, strs, l, prev) == prev,
    decreases l,
{
    if l > 0 {
        lemma_best_in_zero(src, i, ty, strs, l - 1, prev);
    }
}

proof fn lemma_best_in_ge(
    src: Seq<char>,
    i: int,
    ty: Type,
    strs: Seq<Seq<char>>,
    l: int,
    prev: (Type, int),
    si: int,
)
    requires
        0 <= si < l,
        sym_matches_at(src, i, strs[si]),
    ensures
        strs[si].len() <= best_in(src, i, ty, strs, l, prev).1,
    decreases l,
{
    if si < l - 1 {
        lemma_best_in_ge(src, i, ty, strs, l - 1, prev, si);
    }
}

proof fn lemma_best_in_monotone(
    src: Seq<char>,
    i: int,
    ty: Type,
    strs: Seq<Seq<char>>,
    l: int,
    prev: (Type, int),
)
    ensures
        best_in(src, i, ty, strs, l, prev).1 >= prev.1,
    decreases l,
{
    if l > 0 {
        lemma_best_in_monotone(src, i, ty, strs, l - 1, prev);
    }
}

proof fn lemma_best_over_ge(src: Seq<char>, i: int, k: int, ti: int, si: int)
    requires
        0 <= ti < k,
        k <= spec_symbols().len(),
        0 <= si < spec_symbols()[ti].spec_src_strings().len(),
        sym_matches_at(src, i, spec_symbols()[ti].spec_src_strings()[si]),
    ensures
        spec_symbols()[ti].spec_src_strings()[si].len() <= best_over(src, i, k).1,
    decreases k,
{
    let ty = spec_symbols()[k - 1];
    if ti == k - 1 {
        lemma_best_in_ge(
            src,
            i,
            ty,
            ty.spec_src_strings(),
            ty.spec_src_strings().len() as int,
            best_over(src, i, k - 1),
            si,
        );
    } else {
        lemma_best_over_ge(src, i, k - 1, ti, si);
        lemma_best_in_monotone(
            src,
            i,
            ty,
            ty.spec_src_strings(),
            ty.spec_src_strings().len() as int,
            best_over(src, i, k - 1),
        );
    }
}

/// Longest-match scanning: whenever any catalogue spelling matches at a
/// position, the symbol the scanner takes there is at least as long, so a
/// shorter spelling sharing a prefix can never mask a longer match.
pub proof fn lemma_longest_match(src: Seq<char>, i: int, ti: int, si: int)
    requires
        0 <= ti < spec_symbols().len(),
        0 <= si < spec_symbols()[ti].spec_src_strings().len(),
        sym_matches_at(src, i, spec_symbols()[ti].spec_src_strings()[si]),
    ensures
        spec_symbols()[ti].spec_src_strings()[si].len() <= spec_symbol_at(src, i).1,
{
    lemma_best_over_ge(src, i, spec_symbols().len() as int, ti, si);
}

/// The keyword whose spelling is exactly `cap`, if any, scanning the
/// catalogue from entry `k` on.
pub open spec fn kw_from(cap: Seq<char>, k: int) -> Option<Type>
    decreases spec_keywords().len() - k,
{
    if k < 0 || k >= spec_keywords().len() {
        None
    } else if spec_keywords()[k].spec_spelling() == cap {
        Some(spec_keywords()[k])
    } else {
        kw_from(cap, k + 1)
    }
}

/// The keyword a closed capture spells, if any.
pub open spec fn spec_keyword_of(cap: Seq<char>) -> Option<Type> {
    kw_from(cap, 0)
}

/// How a closed capture buffer becomes one token: a numeric literal if it
/// parses as one, else a keyword if its spelling is in the catalogue, else
/// an identifier.
pub open spec fn spec_classify(cap: Seq<char>) -> KindV {
    if spec_is_numeric(cap) {
        KindV::Num(cap)
    } else {
        match spec_keyword_of(cap) {
            Some(t) => KindV::Exact(t),
            None => KindV::Ident(cap),
        }
    }
}

/// The position after one accumulated character.
pub open spec fn loc_after_char(loc: Location) -> Location {
    Location { row: loc.row, col: (loc.col + 1) as u32, idx: (loc.idx + 1) as u32 }
}

/// The position after a symbol of width `len`: a newline starts the next
/// row at column zero, anything else advances the column.
pub open spec fn loc_after_sym(loc: Location, ty: Type, len: int) -> Location {
    if ty.same_kind(&Type::NewLine) {
        Location { row: (loc.row + 1) as u32, col: 0, idx: (loc.idx + len) as u32 }
    } else {
        Location { row: loc.row, col: (loc.col + len) as u32, idx: (loc.idx + len) as u32 }
    }
}

/// The token (if any) a capture spanning `cap .. loc` closes into.
pub open spec fn close_capture(src: Seq<char>, cap: Location, loc: Location) -> Seq<TokenV> {
    if cap.idx < loc.idx {
        seq![
            TokenV {
                start: cap,
                end: loc,
                kind: spec_classify(src.subrange(cap.idx as int, loc.idx as int)),
                size: (loc.idx - cap.idx) as u32,
            },
        ]
    } else {
        Seq::empty()
    }
}

/// The whole token sequence the scanner produces from position `loc` on,
/// with a capture open since `cap` (`cap == loc` means no open capture):
/// greedy symbol matches interrupt the capture, other characters extend
/// it, and the end of input closes the capture and appends the zero-width
/// end-of-stream token.
pub open spec fn spec_scan(src: Seq<char>, loc: Location, cap: Location) -> Seq<TokenV>
    decreases src.len() - loc.idx,
    when src.len() <= u32::MAX && loc.idx <= src.len()
    via spec_scan_dec
{
    if loc.idx >= src.len() {
        close_capture(src, cap, loc) + seq![
            TokenV { start: loc, end: loc, kind: KindV::Exact(Type::EOF), size: 0 },
        ]
    } else {
        let m = spec_symbol_at(src, loc.idx as int);
        if m.1 <= 0 {
            spec_scan(src, loc_after_char(loc), cap)
        } else {
            let loc2 = loc_after_sym(loc, m.0, m.1);
            close_capture(src, cap, loc) + seq![
                TokenV { start: loc, end: loc2, kind: KindV::Exact(m.0), size: m.1 as u32 },
            ] + spec_scan(src, loc2, loc2)
        }
    }
}

#[via_fn]
proof fn spec_scan_dec(src: Seq<char>, loc: Location, cap: Location) {
    if loc.idx < src.len() {
        let m = spec_symbol_at(src, loc.idx as int);
        if m.1 > 0 {
            lemma_symbol_at_ok(src, loc.idx as int);
        }
    }
}

/// Spans in one scan run forward: within every token, and from each
/// token to every later one; every token starts at or after the open
/// capture's start; and the zero-width end-of-stream token closes the
/// sequence.
pub proof fn lemma_scan_spans(src: Seq<char>, loc: Location, cap: Location)
    requires
        src.len() <= u32::MAX,
        loc.idx <= src.len(),
        cap.idx <= loc.idx,
    ensures
        ({
            let vs = spec_scan(src, loc, cap);
            &&& vs.len() >= 1
            &&& vs.last().kind == KindV::Exact(Type::EOF)
            &&& vs.last().end.idx == src.len()
            &&& forall|i: int| 0 <= i < vs.len() ==> (#[trigger] vs[i]).start.idx >= cap.idx
            &&& forall|i: int|
                0 <= i < vs.len() ==> (#[trigger] vs[i]).start.idx <= vs[i].end.idx
            &&& forall|i: int, j: int|
                0 <= i < j < vs.len() ==> (#[trigger] vs[i]).end.idx <= (#[trigger] vs[
                j]).start.idx
        }),
    decreases src.len() - loc.idx,
{
    let vs = spec_scan(src, loc, cap);
    if loc.idx >= src.len() {
        // The closed capture (if any) ends where the end-of-stream token
        // starts.
    } else {
        let m = spec_symbol_at(src, loc.idx as int);
        lemma_symbol_at_ok(src, loc.idx as int);
        if m.1 <= 0 {
            lemma_scan_spans(src, loc_after_char(loc), cap);
        } else {
            let loc2 = loc_after_sym(loc, m.0, m.1);
            lemma_scan_spans(src, loc2, loc2);
            let head = close_capture(src, cap, loc) + seq![
                TokenV { start: loc, end: loc2, kind: KindV::Exact(m.0), size: m.1 as u32 },
            ];
            let rest = spec_scan(src, loc2, loc2);
            assert(vs == head + rest);
            assert(vs.last() == rest.last()) by {
                assert(vs[vs.len() - 1] == rest[rest.len() - 1]);
            }
            assert forall|i: int| 0 <= i < vs.len() implies (#[trigger] vs[i]).start.idx
                >= cap.idx && vs[i].start.idx <= vs[i].end.idx by {
                if i >= head.len() {
                    assert(vs[i] == rest[i - head.len()]);
                }
            }
            assert forall|i: int, j: int|
                0 <= i < j < vs.len() implies (#[trigger] vs[i]).end.idx <= (#[trigger] vs[
                j]).start.idx by {
                if i >= head.len() {
                    assert(vs[i] == rest[i - head.len()]);
                    assert(vs[j] == rest[j - head.len()]);
                } else if j >= head.len() {
                    assert(vs[j] == rest[j - head.len()]);
                    assert(vs[j].start.idx >= loc2.idx);
                }
            }
        }
    }
}

/// Filtering preserves forward-running spans, keeps every surviving
/// token's end within the last token's end, and keeps the end-of-stream
/// token at the back.
pub proof fn lemma_filter_ws_spans(vs: Seq<TokenV>)
    requires
        forall|i: int| 0 <= i < vs.len() ==> (#[trigger] vs[i]).start.idx <= vs[i].end.idx,
        forall|i: int, j: int|
            0 <= i < j < vs.len() ==> (#[trigger] vs[i]).end.idx <= (#[trigger] vs[j]).start.idx,
    ensures
        ({
            let f = spec_filter_ws(vs);
            &&& forall|i: int| 0 <= i < f.len() ==> (#[trigger] f[i]).start.idx <= f[i].end.idx
            &&& forall|i: int, j: int|
                0 <= i < j < f.len() ==> (#[trigger] f[i]).end.idx <= (#[trigger] f[
                j]).start.idx
            &&& vs.len() > 0 ==> forall|i: int|
                0 <= i < f.len() ==> (#[trigger] f[i]).end.idx <= vs.last().end.idx
            &&& (vs.len() > 0 && !(vs.last().kind matches KindV::Exact(t) && t.same_kind(
                &Type::Whitespace,
            ))) ==> f.len() > 0 && f.last() == vs.last()
        }),
    decreases vs.len(),
{
    if vs.len() > 0 {
        let w = vs.drop_last();
        lemma_filter_ws_spans(w);
        let fw = spec_filter_ws(w);
        assert(forall|i: int| 0 <= i < w.len() ==> #[trigger] w[i] == vs[i]);
        if w.len() > 0 {
            assert(w.last() == vs[vs.len() - 2]);
            assert(w.last().end.idx <= vs.last().start.idx);
        }
        if vs.last().kind matches KindV::Exact(t) && t.same_kind(&Type::Whitespace) {
            assert(spec_filter_ws(vs) == fw);
        } else {
            assert(spec_filter_ws(vs) == fw.push(vs.last()));
        }
    }
}

/// The scanner's tokens with pure-whitespace tokens removed, in order.
pub open spec fn spec_filter_ws(vs: Seq<TokenV>) -> Seq<TokenV>
    decreases vs.len(),
{
    if vs.len() == 0 {
        Seq::empty()
    } else {
        let rest = spec_filter_ws(vs.drop_last());
        if vs.last().kind matches KindV::Exact(t) && t.same_kind(&Type::Whitespace) {
            rest
        } else {
            rest.push(vs.last())
        }
    }
}

/// The lexical scanner: the source as characters, the cursor position, and
/// the tokens produced so far.
pub struct Lexer {
    pub source: Vec<char>,
    pub loc: Location,
    pub tokens: Vec<Token>,
}

impl Lexer {
    pub fn new(code: String) -> (l: Lexer)
        ensures
            l.source@ == code@,
            l.loc == (Location { row: 0, col: 0, idx: 0 }),
            l.tokens@.len() == 0,
    {
        Lexer { source: chars_of(code.as_str()), loc: Location::empty(), tokens: Vec::new() }
    }

    /// The character under the cursor.
    fn at(&self) -> (c: char)
        requires
            (self.loc.idx as int) < self.source@.len(),
        ensures
            c == self.source@[self.loc.idx as int],
    {
        self.source[self.loc.idx as usize]
    }

    /// Complete `token` at the cursor: advance the cursor over its width
    /// (a newline starts the next row), and append the completed token.
    fn push(&mut self, token: Token)
        requires
            old(self).loc.idx + token.size <= u32::MAX,
            old(self).loc.col + token.size <= u32::MAX,
            token.typ.same_kind(&Type::NewLine) ==> old(self).loc.row + 1 <= u32::MAX,
            token.start.idx <= old(self).loc.idx,
        ensures
            final(self).source == old(self).source,
            final(self).loc == loc_after_sym(old(self).loc, token.typ, token.size as int),
            toks_v(final(self).tokens@) == toks_v(old(self).tokens@).push(
                TokenV {
                    start: token.start,
                    end: final(self).loc,
                    kind: kind_v(token.typ),
                    size: (final(self).loc.idx - token.start.idx) as u32,
                },
            ),
    {
        self.loc.idx = self.loc.idx + token.size;
        if token.typ.eq(&Type::NewLine) {
            self.loc.row = self.loc.row + 1;
            self.loc.col = 0;
        } else {
            self.loc.col = self.loc.col + token.size;
        }
        let t = Token::new(token.start, self.loc, token.typ);
        self.tokens.push(t);
        proof {
            assert(toks_v(final(self).tokens@) =~= toks_v(old(self).tokens@).push(tok_v(t)));
        }
    }

    /// Try every symbol spelling at the cursor and keep the longest match
    /// (the first declared wins ties). Yields whether any matched, and an
    /// open token for the winner.
    fn symbol(&self) -> (r: (bool, Token))
        requires
            self.source@.len() <= u32::MAX,
        ensures
            ({
                let m = spec_symbol_at(self.source@, self.loc.idx as int);
                &&& r.0 == (m.1 > 0)
                &&& (r.0 ==> r.1.start == self.loc && r.1.end == self.loc && r.1.typ == m.0
                    && r.1.size == m.1)
            }),
    {
        let ghost src = self.source@;
        let ghost i = self.loc.idx as int;
        let syms = symbols();
        let mut max_len: usize = 0;
        let mut best_k: usize = 0;
        let mut k: usize = 0;
        while k < syms.len()
            invariant
                syms@ == spec_symbols(),
                src == self.source@,
                i == self.loc.idx as int,
                k <= syms@.len(),
                max_len == 0 ==> best_over(src, i, k as int) == (Type::EOF, 0int),
                max_len > 0 ==> best_k < syms@.len() && best_over(src, i, k as int) == (
                    spec_symbols()[best_k as int],
                    max_len as int,
                ),
            decreases syms@.len() - k,
        {
            let pattern = &syms[k];
            let sources = pattern.src_strings();
            let ghost strs = pattern.spec_src_strings();
            let ghost prev = best_over(src, i, k as int);
            let mut l: usize = 0;
            while l < sources.len()
                invariant
                    syms@ == spec_symbols(),
                    src == self.source@,
                    i == self.loc.idx as int,
                    k < syms@.len(),
                    pattern == &syms@[k as int],
                    strs == pattern.spec_src_strings(),
                    sources@.len() == strs.len(),
                    forall|x: int| 0 <= x < strs.len() ==> #[trigger] sources@[x]@ == strs[x],
                    l <= strs.len(),
                    prev == best_over(src, i, k as int),
                    max_len == 0 ==> best_in(src, i, *pattern, strs, l as int, prev) == (
                        Type::EOF,
                        0int,
                    ),
                    max_len > 0 ==> best_k < syms@.len() && best_in(
                        src,
                        i,
                        *pattern,
                        strs,
                        l as int,
                        prev,
                    ) == (spec_symbols()[best_k as int], max_len as int),
                decreases strs.len() - l,
            {
                let sp = &sources[l];
                if matches_at(&self.source, self.loc.idx, sp.as_str()) && sp.as_str().unicode_len()
                    > max_len {
                    max_len = sp.as_str().unicode_len();
                    best_k = k;
                }
                l = l + 1;
            }
            k = k + 1;
        }

        if max_len == 0 {
            (false, Token::empty())
        } else {
            let ty = dup_bare(&syms[best_k]);
            proof {
                lemma_symbol_at_ok(src, i);
            }
            let token = Token::open(self.loc, ty, max_len as u32);
            (true, token)
        }
    }

    /// Close the capture buffer, if it holds anything, into one token:
    /// numeric parse first, then keyword-table membership, else an
    /// identifier.
    fn push_identifier(&mut self, capture: &Vec<char>, cap_start: Location) -> (r: bool)
        requires
            capture@.len() > 0 ==> cap_start.idx <= old(self).loc.idx,
        ensures
            final(self).source == old(self).source,
            final(self).loc == old(self).loc,
            r == (capture@.len() > 0),
            r ==> toks_v(final(self).tokens@) == toks_v(old(self).tokens@).push(
                TokenV {
                    start: cap_start,
                    end: old(self).loc,
                    kind: spec_classify(capture@),
                    size: (old(self).loc.idx - cap_start.idx) as u32,
                },
            ),
            !r ==> final(self).tokens == old(self).tokens,
    {
        if capture.len() != 0 {
            let typ: Type = if is_numeric(capture) {
                Type::Number(string_from_chars(capture))
            } else {
                match keyword_of(capture) {
                    Some(t) => t,
                    None => Type::Identifier(string_from_chars(capture)),
                }
            };
            let token = Token::new(cap_start, self.loc, typ);
            self.tokens.push(token);
            proof {
                assert(toks_v(final(self).tokens@) =~= toks_v(old(self).tokens@).push(
                    tok_v(token),
                ));
            }
            true
        } else {
            false
        }
    }

    /// Scan the whole source into tokens (whitespace and newlines
    /// included), append the end-of-stream token, and return a copy of the
    /// token sequence.
    pub fn lex(&mut self) -> (r: Vec<Token>)
        requires
            old(self).loc == (Location { row: 0, col: 0, idx: 0 }),
            old(self).tokens@.len() == 0,
            old(self).source@.len() <= u32::MAX,
        ensures
            final(self).source@ == old(self).source@,
            toks_v(final(self).tokens@) == spec_scan(
                old(self).source@,
                Location { row: 0, col: 0, idx: 0 },
                Location { row: 0, col: 0, idx: 0 },
            ),
            toks_v(r@) == toks_v(final(self).tokens@),
    {
        let ghost src = self.source@;
        let mut capture: Vec<char> = Vec::new();
        let mut cap_start = Location::empty();
        while (self.loc.idx as usize) < self.source.len()
            invariant
                self.source@ == src,
                src.len() <= u32::MAX,
                self.loc.idx <= src.len(),
                self.loc.col <= self.loc.idx,
                self.loc.row <= self.loc.idx,
                capture@.len() == 0 || (cap_start.idx < self.loc.idx && cap_start.col
                    <= cap_start.idx && capture@ == src.subrange(
                    cap_start.idx as int,
                    self.loc.idx as int,
                )),
                spec_scan(src, Location { row: 0, col: 0, idx: 0 }, Location { row: 0, col: 0, idx: 0 })
                    == toks_v(self.tokens@) + spec_scan(
                    src,
                    self.loc,
                    if capture@.len() == 0 {
                        self.loc
                    } else {
                        cap_start
                    },
                ),
            decreases src.len() - self.loc.idx,
        {
            let ghost loc0 = self.loc;
            let ghost toks0 = toks_v(self.tokens@);
            let ghost gcap: Location = if capture@.len() == 0 {
                self.loc
            } else {
                cap_start
            };
            let (is_symbol, symbol) = self.symbol();
            proof {
                lemma_symbol_at_ok(src, loc0.idx as int);
            }
            if !is_symbol {
                if capture.len() == 0 {
                    cap_start = self.loc;
                }
                capture.push(self.at());
                self.loc.next();
                proof {
                    assert(capture@ =~= src.subrange(cap_start.idx as int, self.loc.idx as int));
                    assert(self.loc == loc_after_char(loc0));
                    assert(spec_scan(src, loc0, gcap) == spec_scan(src, self.loc, gcap));
                }
            } else {
                if self.push_identifier(&capture, cap_start) {
                    capture.clear();
                }
                self.push(symbol);
                proof {
                    let m = spec_symbol_at(src, loc0.idx as int);
                    let loc2 = loc_after_sym(loc0, m.0, m.1);
                    assert(self.loc == loc2);
                    let symtok = TokenV {
                        start: loc0,
                        end: loc2,
                        kind: KindV::Exact(m.0),
                        size: m.1 as u32,
                    };
                    assert(spec_scan(src, loc0, gcap) == close_capture(src, gcap, loc0) + seq![
                        symtok,
                    ] + spec_scan(src, loc2, loc2));
                    assert(toks_v(self.tokens@) =~= toks0 + close_capture(src, gcap, loc0) + seq![
                        symtok,
                    ]);
                    assert(toks_v(self.tokens@) + spec_scan(src, loc2, loc2) =~= toks0 + spec_scan(
                        src,
                        loc0,
                        gcap,
                    ));
                }
            }
        }
        self.push_identifier(&capture, cap_start);

        // Add the end-of-stream token.
        let eof = Token::new(self.loc, self.loc, Type::EOF);
        self.push(eof);
        proof {
            assert(toks_v(final(self).tokens@) =~= spec_scan(
                src,
                Location { row: 0, col: 0, idx: 0 },
                Location { row: 0, col: 0, idx: 0 },
            ));
        }

        let mut r: Vec<Token> = Vec::new();
        let mut i: usize = 0;
        while i < self.tokens.len()
            invariant
                self.source@ == src,
                src.len() <= u32::MAX,
                toks_v(self.tokens@) == spec_scan(
                    src,
                    Location { row: 0, col: 0, idx: 0 },
                    Location { row: 0, col: 0, idx: 0 },
                ),
                src == old(self).source@,
                i <= self.tokens@.len(),
                toks_v(r@) == toks_v(self.tokens@).take(i as int),
            decreases self.tokens@.len() - i,
        {
            let ghost r0 = r@;
            r.push(dup_token(&self.tokens[i]));
            i = i + 1;
            proof {
                let full = toks_v(self.tokens@);
                assert(toks_v(r@) =~= toks_v(r0).push(tok_v(self.tokens@[i - 1])));
                assert(full.take(i as int) =~= full.take(i - 1).push(full[i - 1]));
                assert(toks_v(r@) == full.take(i as int));
            }
        }
        proof {
            assert(toks_v(self.tokens@).take(self.tokens@.len() as int) =~= toks_v(
                self.tokens@,
            ));
        }
        r
    }

    /// The scanned tokens with pure-whitespace tokens removed.
    pub fn filter(&self) -> (r: Vec<Token>)
        ensures
            toks_v(r@) == spec_filter_ws(toks_v(self.tokens@)),
    {
        let mut r: Vec<Token> = Vec::new();
        let mut i: usize = 0;
        while i < self.tokens.len()
            invariant
                i <= self.tokens@.len(),
                toks_v(r@) == spec_filter_ws(toks_v(self.tokens@).take(i as int)),
            decreases self.tokens@.len() - i,
        {
            let tok = &self.tokens[i];
            let ghost r0 = r@;
            if !tok.typ.eq(&Type::Whitespace) {
                r.push(dup_token(tok));
            }
            i = i + 1;
            proof {
                let full = toks_v(self.tokens@);
                let pre = full.take(i - 1);
                let cur = full.take(i as int);
                assert(cur.drop_last() =~= pre);
                assert(cur.last() == full[i - 1]);
                if !(full[i - 1].kind matches KindV::Exact(t) && t.same_kind(
                    &Type::Whitespace,
                )) {
                    assert(toks_v(r@) =~= toks_v(r0).push(tok_v(self.tokens@[i - 1])));
                    assert(toks_v(r@) == spec_filter_ws(cur));
                } else {
                    assert(toks_v(r@) == spec_filter_ws(cur));
                }
            }
        }
        proof {
            assert(toks_v(self.tokens@).take(self.tokens@.len() as int) =~= toks_v(
                self.tokens@,
            ));
        }
        r
    }
}

/// Does the spelling `sp` match `source` at position `i`, whole?
fn matches_at(source: &Vec<char>, i: u32, sp: &str) -> (r: bool)
    ensures
        r == sym_matches_at(source@, i as int, sp@),
{
    let n = sp.unicode_len();
    if n == 0 || (i as usize) > source.len() || n > source.len() - (i as usize) {
        return false;
    }
    let mut j: usize = 0;
    while j < n
        invariant
            n == sp@.len(),
            0 < n,
            i as int + n <= source@.len(),
            source@.len() <= usize::MAX,
            j <= n,
            forall|x: int| 0 <= x < j ==> source@[i as int + x] == sp@[x],
        decreases n - j,
    {
        if source[(i as usize) + j] != sp.get_char(j) {
            proof {
                assert(source@.subrange(i as int, i as int + sp@.len())[j as int] == source@[
                    i as int + j]);
            }
            return false;
        }
        j = j + 1;
    }
    proof {
        assert(source@.subrange(i as int, i as int + sp@.len()) =~= sp@);
    }
    true
}

/// The index of the first newline in `s`, or `s.len()` when none.
pub open spec fn first_nl(s: Seq<char>) -> nat
    decreases s.len(),
{
    if s.len() == 0 {
        0
    } else if s[0] == '\n' {
        0
    } else {
        1 + first_nl(s.skip(1))
    }
}

/// The source split at newlines: the text of each line, in order, without
/// the newlines themselves. An empty source is one empty line; a trailing
/// newline opens one further empty line.
pub open spec fn spec_lines(s: Seq<char>) -> Seq<Seq<char>>
    decreases s.len(),
{
    let k = first_nl(s);
    if k >= s.len() {
        seq![s]
    } else {
        seq![s.take(k as int)] + spec_lines(s.skip(k as int + 1))
    }
}

/// The first newline of a concatenation whose left half holds none sits
/// past the left half.
proof fn lemma_first_nl_concat(a: Seq<char>, b: Seq<char>)
    requires
        forall|i: int| 0 <= i < a.len() ==> a[i] != '\n',
    ensures
        first_nl(a + b) == a.len() + first_nl(b),
    decreases a.len(),
{
    if a.len() == 0 {
        assert(a + b =~= b);
    } else {
        assert((a + b).skip(1) =~= a.skip(1) + b);
        lemma_first_nl_concat(a.skip(1), b);
    }
}

proof fn lemma_first_nl_bounds(s: Seq<char>)
    ensures
        0 <= first_nl(s) <= s.len(),
        forall|i: int| 0 <= i < first_nl(s) ==> s[i] != '\n',
        first_nl(s) < s.len() ==> s[first_nl(s) as int] == '\n',
    decreases s.len(),
{
    if s.len() > 0 && s[0] != '\n' {
        lemma_first_nl_bounds(s.skip(1));
        assert forall|i: int| 0 <= i < first_nl(s) implies s[i] != '\n' by {
            if i > 0 {
                assert(s.skip(1)[i - 1] == s[i]);
            }
        }
    }
}

/// Split the source at newlines into its lines.
pub fn source_lines(source: &String) -> (r: Vec<String>)
    ensures
        r@.map_values(|s: String| s@) == spec_lines(source@),
{
    let chars = chars_of(source.as_str());
    let ghost src = source@;
    let mut out: Vec<String> = Vec::new();
    let mut cur: Vec<char> = Vec::new();
    let mut i: usize = 0;
    proof {
        assert(cur@ + src.skip(0) =~= src);
        assert(out@.map_values(|s: String| s@) =~= Seq::<Seq<char>>::empty());
    }
    while i < chars.len()
        invariant
            chars@ == src,
            i <= src.len(),
            forall|j: int| 0 <= j < cur@.len() ==> cur@[j] != '\n',
            spec_lines(src) == out@.map_values(|s: String| s@) + spec_lines(
                cur@ + src.skip(i as int),
            ),
        decreases src.len() - i,
    {
        let ghost out0 = out@;
        let ghost cur0 = cur@;
        let c = chars[i];
        if c == '\n' {
            out.push(string_from_chars(&cur));
            cur = Vec::new();
        } else {
            cur.push(c);
        }
        i = i + 1;
        proof {
            let rest0 = src.skip(i - 1);
            let rest = src.skip(i as int);
            assert(rest0[0] == src[i - 1]);
            assert(rest0.skip(1) =~= rest);
            lemma_first_nl_concat(cur0, rest0);
            lemma_first_nl_bounds(rest0);
            if c == '\n' {
                assert(first_nl(rest0) == 0);
                assert(first_nl(cur0 + rest0) == cur0.len());
                assert((cur0 + rest0).take(cur0.len() as int) =~= cur0);
                assert((cur0 + rest0).skip(cur0.len() as int + 1) =~= rest);
                assert(spec_lines(cur0 + rest0) == seq![cur0] + spec_lines(rest));
                assert(cur@ + rest =~= rest);
                assert(out@.map_values(|s: String| s@) =~= out0.map_values(|s: String| s@)
                    + seq![cur0]);
                assert(out@.map_values(|s: String| s@) + spec_lines(cur@ + rest)
                    =~= out0.map_values(|s: String| s@) + spec_lines(cur0 + rest0));
            } else {
                assert(cur@ =~= cur0.push(c));
                assert(cur@ + rest =~= cur0 + rest0);
            }
        }
    }
    out.push(string_from_chars(&cur));
    proof {
        let rest = src.skip(src.len() as int);
        assert(rest =~= Seq::<char>::empty());
        assert(cur@ + rest =~= cur@);
        lemma_first_nl_bounds(cur@);
        assert(first_nl(cur@) == cur@.len()) by {
            if first_nl(cur@) < cur@.len() {
                assert(cur@[first_nl(cur@) as int] == '\n');
            }
        }
        assert(spec_lines(cur@) == seq![cur@]);
        assert(out@.map_values(|s: String| s@) =~= spec_lines(src));
    }
    out
}

/// The keyword a capture spells, if any.
fn keyword_of(capture: &Vec<char>) -> (r: Option<Type>)
    ensures
        match r {
            Some(t) => spec_keyword_of(capture@) == Some(t) && crate::tokens::is_bare(t),
            None => spec_keyword_of(capture@) is None,
        },
{
    let kws = keywords();
    let mut k: usize = 0;
    while k < kws.len()
        invariant
            kws@ == spec_keywords(),
            k <= kws@.len(),
            spec_keyword_of(capture@) == kw_from(capture@, k as int),
        decreases kws@.len() - k,
    {
        let keyword = &kws[k];
        let sources = keyword.src_strings();
        let ghost strs = keyword.spec_src_strings();
        proof {
            assert(!spec_keywords()[k as int].same_kind(&Type::Whitespace));
            assert(strs.len() == 1);
            assert(strs[0] == keyword.spec_spelling());
        }
        let mut l: usize = 0;
        let mut matched = false;
        while l < sources.len()
            invariant
                sources@.len() == strs.len(),
                forall|x: int| 0 <= x < strs.len() ==> #[trigger] sources@[x]@ == strs[x],
                strs.len() == 1,
                strs[0] == keyword.spec_spelling(),
                l <= 1,
                matched ==> keyword.spec_spelling() == capture@,
                !matched && l == 1 ==> keyword.spec_spelling() != capture@,
            decreases sources@.len() - l,
        {
            if crate::text::chars_eq_str(capture, sources[l].as_str()) {
                matched = true;
            }
            l = l + 1;
        }
        if matched {
            let t = dup_bare(keyword);
            return Some(t);
        }
        k = k + 1;
    }
    None
}

} // verus!
