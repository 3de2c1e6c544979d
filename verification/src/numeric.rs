//! Recognition of numeric literals. A capture closes as a numeric literal
//! exactly when it spells a decimal number: an optional sign, then either a
//! digit string with at most one point (and at least one digit), optionally
//! followed by an exponent part, or one of the case-insensitive spellings
//! `inf`, `infinity`, `nan`.

use vstd::prelude::*;

verus! {

/// Is `c` a decimal digit?
pub open spec fn is_digit(c: char) -> bool {
    '0' <= c && c <= '9'
}

/// Every character of `s` is a decimal digit.
pub open spec fn all_digits(s: Seq<char>) -> bool {
    forall|i: int| 0 <= i < s.len() ==> is_digit(#[trigger] s[i])
}

/// The lower-case counterpart of the letters the special spellings use;
/// every other character stands for itself.
pub open spec fn spec_lower(c: char) -> char {
    match c {
        'I' => 'i',
        'N' => 'n',
        'F' => 'f',
        'A' => 'a',
        'T' => 't',
        'Y' => 'y',
        _ => c,
    }
}

/// Case-insensitive equality of `s` against a fixed lower-case spelling.
pub open spec fn eq_ci(s: Seq<char>, t: Seq<char>) -> bool {
    s.len() == t.len() && forall|i: int| 0 <= i < s.len() ==> spec_lower(#[trigger] s[i]) == t[i]
}

/// A mantissa: a nonempty digit string, or a string of length two or more
/// holding exactly one decimal point and digits everywhere else.
pub open spec fn is_mantissa(s: Seq<char>) -> bool {
    (s.len() > 0 && all_digits(s)) || (s.len() >= 2 && exists|k: int|
        0 <= k < s.len() && s[k] == '.' && forall|i: int|
            0 <= i < s.len() && i != k ==> is_digit(#[trigger] s[i]))
}

/// An exponent part: `e` or `E`, an optional sign, and at least one digit
/// running to the end.
pub open spec fn is_exponent(s: Seq<char>) -> bool {
    s.len() >= 2 && (s[0] == 'e' || s[0] == 'E') && (all_digits(s.skip(1)) || (s.len() >= 3 && (
    s[1] == '+' || s[1] == '-') && all_digits(s.skip(2))))
}

/// A number: a mantissa, optionally followed by an exponent part.
pub open spec fn is_number(s: Seq<char>) -> bool {
    exists|j: int|
        0 < j <= s.len() && is_mantissa(#[trigger] s.take(j)) && (j == s.len() || is_exponent(
            s.skip(j),
        ))
}

/// The signless body of a numeric literal: a special spelling or a number.
pub open spec fn spec_numeric_body(s: Seq<char>) -> bool {
    eq_ci(s, "inf"@) || eq_ci(s, "infinity"@) || eq_ci(s, "nan"@) || is_number(s)
}

/// A numeric literal: an optional sign, then a numeric body.
pub open spec fn spec_is_numeric(s: Seq<char>) -> bool {
    s.len() > 0 && spec_numeric_body(
        if s[0] == '+' || s[0] == '-' {
            s.skip(1)
        } else {
            s
        },
    )
}

fn exec_is_digit(c: char) -> (r: bool)
    ensures
        r == is_digit(c),
{
    '0' <= c && c <= '9'
}

fn exec_lower(c: char) -> (r: char)
    ensures
        r == spec_lower(c),
{
    match c {
        'I' => 'i',
        'N' => 'n',
        'F' => 'f',
        'A' => 'a',
        'T' => 't',
        'Y' => 'y',
        _ => c,
    }
}

/// Case-insensitive comparison of `s[from..]` against a fixed lower-case
/// spelling.
fn eq_ci_from(s: &Vec<char>, from: usize, t: &str) -> (r: bool)
    requires
        from <= s@.len(),
    ensures
        r == eq_ci(s@.skip(from as int), t@),
{
    let n = t.unicode_len();
    if s.len() - from != n {
        return false;
    }
    let mut i: usize = 0;
    while i < n
        invariant
            n == t@.len(),
            from + n == s@.len(),
            from + n <= usize::MAX,
            i <= n,
            forall|j: int| 0 <= j < i ==> spec_lower(#[trigger] s@.skip(from as int)[j]) == t@[j],
        decreases n - i,
    {
        if exec_lower(s[from + i]) != t.get_char(i) {
            proof {
                assert(s@.skip(from as int)[i as int] == s@[from + i]);
            }
            return false;
        }
        proof {
            assert(s@.skip(from as int)[i as int] == s@[from + i]);
        }
        i = i + 1;
    }
    true
}

/// Scan a run of digits in `s` starting at `from`; the result is the first
/// index at or past `from` holding no digit.
fn digit_run(s: &Vec<char>, from: usize) -> (r: usize)
    requires
        from <= s@.len(),
    ensures
        from <= r <= s@.len(),
        forall|i: int| from <= i < r ==> is_digit(#[trigger] s@[i]),
        r < s@.len() ==> !is_digit(s@[r as int]),
    decreases s@.len() - from,
{
    let mut p = from;
    while p < s.len() && exec_is_digit(s[p])
        invariant
            from <= p <= s@.len(),
            forall|i: int| from <= i < p ==> is_digit(#[trigger] s@[i]),
        decreases s@.len() - p,
    {
        p = p + 1;
    }
    p
}

/// What the mantissa scan learned: digits up to `p`, then either no point
/// (`p == m`, and the character at `p` is neither digit nor point) or a
/// point at `p` followed by digits up to `m`.
spec fn scan_facts(src: Seq<char>, start: int, p: int, m: int) -> bool {
    &&& 0 <= start <= p <= m <= src.len()
    &&& forall|i: int| start <= i < p ==> is_digit(#[trigger] src[i])
    &&& (p == m ==> (p == src.len() || (!is_digit(src[p]) && src[p] != '.')))
    &&& (p < m ==> src[p] == '.' && (forall|i: int|
        p + 1 <= i < m ==> is_digit(#[trigger] src[i])) && (m < src.len() ==> !is_digit(
        src[m],
    )))
}

/// Any mantissa prefix of the body ends at or before the scanned mantissa
/// end `m`.
proof fn lemma_mantissa_bounded(src: Seq<char>, start: int, p: int, m: int, j: int)
    requires
        scan_facts(src, start, p, m),
        0 < j,
        start + j <= src.len(),
        is_mantissa(src.skip(start).take(j)),
    ensures
        start + j <= m,
{
    let t = src.skip(start).take(j);
    assert(t.len() == j);
    assert(forall|i: int| 0 <= i < j ==> t[i] == src[start + i]);
    if start + j > m {
        assert(m < src.len());
        if t.len() > 0 && all_digits(t) {
            if p < m {
                assert(t[p - start] == src[p]);
            } else {
                assert(t[m - start] == src[m]);
            }
        } else {
            let k = choose|k: int|
                0 <= k < t.len() && t[k] == '.' && forall|i: int|
                    0 <= i < t.len() && i != k ==> is_digit(#[trigger] t[i]);
            if p < m {
                if k != p - start {
                    assert(is_digit(t[p - start]));
                    assert(t[p - start] == src[p]);
                } else {
                    assert(t[m - start] == src[m]);
                    assert(is_digit(src[m]));
                }
            } else {
                if k != p - start {
                    assert(is_digit(t[p - start]));
                    assert(t[p - start] == src[p]);
                } else {
                    assert(t[k] == src[p]);
                }
            }
        }
    }
}

/// With no digit on either side of the (possible) point, no prefix of the
/// body is a mantissa, so the body is no number.
proof fn lemma_no_mantissa(src: Seq<char>, start: int, p: int, m: int)
    requires
        scan_facts(src, start, p, m),
        p == start,
        p < m ==> m == p + 1,
    ensures
        !is_number(src.skip(start)),
{
    let body = src.skip(start);
    assert forall|j: int| 0 < j <= body.len() implies !is_mantissa(#[trigger] body.take(j)) by {
        let t = body.take(j);
        assert(t.len() == j);
        assert(forall|i: int| 0 <= i < j ==> t[i] == src[start + i]);
        if is_mantissa(t) {
            if t.len() > 0 && all_digits(t) {
                assert(is_digit(t[0]));
                assert(t[0] == src[start]);
            } else {
                let k = choose|k: int|
                    0 <= k < t.len() && t[k] == '.' && forall|i: int|
                        0 <= i < t.len() && i != k ==> is_digit(#[trigger] t[i]);
                if k != 0 {
                    assert(is_digit(t[0]));
                    assert(t[0] == src[start]);
                    // src[start] is no digit: it is the point, or neither.
                    assert(false);
                } else {
                    // The point opens the body, so a second character must
                    // be a digit; but the scan found none after the point.
                    assert(t.len() >= 2);
                    assert(is_digit(t[1]));
                    assert(t[1] == src[start + 1]);
                    assert(src[start] == '.');
                    assert(p < m);
                    assert(false);
                }
            }
        }
    }
}

/// When the character after the scanned mantissa is no exponent marker,
/// the body is no number.
proof fn lemma_no_marker(src: Seq<char>, start: int, p: int, m: int)
    requires
        scan_facts(src, start, p, m),
        m < src.len(),
        src[m] != 'e' && src[m] != 'E',
    ensures
        !is_number(src.skip(start)),
{
    let body = src.skip(start);
    assert forall|j: int|
        0 < j <= body.len() && is_mantissa(#[trigger] body.take(j)) implies j != body.len()
        && !is_exponent(body.skip(j)) by {
        lemma_mantissa_bounded(src, start, p, m, j);
        let tail = body.skip(j);
        assert(tail[0] == src[start + j]);
        if start + j < m {
            if p < m && start + j == p {
                assert(src[start + j] == '.');
            } else {
                assert(is_digit(src[start + j]));
            }
            assert(tail[0] != 'e' && tail[0] != 'E');
        } else {
            assert(start + j == m);
            assert(tail[0] != 'e' && tail[0] != 'E');
        }
    }
}

/// When the digits after the exponent marker (and optional sign) fail to
/// run exactly to the end of the capture, the body is no number.
proof fn lemma_bad_exponent(src: Seq<char>, start: int, p: int, m: int, r1: int, e: int)
    requires
        scan_facts(src, start, p, m),
        m < src.len(),
        src[m] == 'e' || src[m] == 'E',
        m + 1 <= r1 <= src.len(),
        r1 == m + 1 || (r1 == m + 2 && (src[m + 1] == '+' || src[m + 1] == '-')),
        r1 == m + 1 ==> (m + 1 == src.len() || !(src[m + 1] == '+' || src[m + 1] == '-')),
        r1 <= e <= src.len(),
        forall|i: int| r1 <= i < e ==> is_digit(#[trigger] src[i]),
        e < src.len() ==> !is_digit(src[e]),
        !(e == src.len() && e > r1),
    ensures
        !is_number(src.skip(start)),
{
    let body = src.skip(start);
    assert forall|j: int|
        0 < j <= body.len() && is_mantissa(#[trigger] body.take(j)) implies j != body.len()
        && !is_exponent(body.skip(j)) by {
        lemma_mantissa_bounded(src, start, p, m, j);
        let tail = body.skip(j);
        assert(forall|i: int| 0 <= i < tail.len() ==> tail[i] == src[start + j + i]);
        if start + j < m {
            if p < m && start + j == p {
                assert(src[start + j] == '.');
            } else {
                assert(is_digit(src[start + j]));
            }
            assert(tail[0] != 'e' && tail[0] != 'E');
        } else {
            assert(start + j == m);
            if is_exponent(tail) {
                if tail.len() >= 3 && (tail[1] == '+' || tail[1] == '-') && all_digits(
                    tail.skip(2),
                ) {
                    // Signed form: the sign sits at m + 1.
                    assert(tail[1] == src[m + 1]);
                    assert(r1 == m + 2);
                    assert forall|i: int| r1 <= i < src.len() implies is_digit(
                        #[trigger] src[i],
                    ) by {
                        assert(tail.skip(2)[i - m - 2] == src[i]);
                        assert(is_digit(tail.skip(2)[i - m - 2]));
                    }
                    assert(e == src.len());
                    assert(src.len() >= m + 3);
                    assert(e > r1);
                    assert(false);
                } else {
                    // Unsigned form: digits must start right at m + 1.
                    assert(all_digits(tail.skip(1)));
                    assert(tail.len() >= 2);
                    assert(tail.skip(1)[0] == src[m + 1]);
                    assert(is_digit(src[m + 1]));
                    assert(r1 == m + 1);
                    assert forall|i: int| r1 <= i < src.len() implies is_digit(
                        #[trigger] src[i],
                    ) by {
                        assert(tail.skip(1)[i - m - 1] == src[i]);
                        assert(is_digit(tail.skip(1)[i - m - 1]));
                    }
                    assert(e == src.len());
                    assert(e > r1);
                    assert(false);
                }
            }
        }
    }
}

/// Does the capture `s` spell a numeric literal?
pub fn is_numeric(s: &Vec<char>) -> (r: bool)
    ensures
        r == spec_is_numeric(s@),
{
    let n = s.len();
    if n == 0 {
        return false;
    }
    let start: usize = if s[0] == '+' || s[0] == '-' {
        1
    } else {
        0
    };
    let ghost body = s@.skip(start as int);
    proof {
        if start == 0 {
            assert(body =~= s@);
        }
    }

    if eq_ci_from(s, start, "inf") || eq_ci_from(s, start, "infinity") || eq_ci_from(
        s,
        start,
        "nan",
    ) {
        return true;
    }

    // Mantissa: a digit run, then possibly a point and a second digit run.
    let p = digit_run(s, start);
    let mantissa_end: usize;
    if p < n && s[p] == '.' {
        mantissa_end = digit_run(s, p + 1);
    } else {
        mantissa_end = p;
    }
    proof {
        assert(scan_facts(s@, start as int, p as int, mantissa_end as int));
    }
    if p == start && mantissa_end <= p + 1 {
        // No digit at all on either side of the point.
        proof {
            lemma_no_mantissa(s@, start as int, p as int, mantissa_end as int);
        }
        return false;
    }

    let ghost j = mantissa_end - start;
    proof {
        lemma_scanned_mantissa(s@, start as int, p as int, mantissa_end as int);
    }

    if mantissa_end == n {
        proof {
            assert(body.take(j as int) =~= body);
            assert(is_number(body));
        }
        return true;
    }

    // Exponent part.
    let c = s[mantissa_end];
    if c != 'e' && c != 'E' {
        proof {
            lemma_no_marker(s@, start as int, p as int, mantissa_end as int);
        }
        return false;
    }
    let r0 = mantissa_end + 1;
    let r1: usize = if r0 < n && (s[r0] == '+' || s[r0] == '-') {
        r0 + 1
    } else {
        r0
    };
    let e = digit_run(s, r1);
    if e == n && e > r1 {
        proof {
            let tail = body.skip(j as int);
            assert(forall|i: int| 0 <= i < tail.len() ==> tail[i] == s@[mantissa_end + i]);
            if r1 == r0 {
                assert forall|i: int| 0 <= i < tail.skip(1).len() implies is_digit(
                    #[trigger] tail.skip(1)[i],
                ) by {
                    assert(tail.skip(1)[i] == s@[r0 + i]);
                }
                assert(tail.len() >= 2);
                assert(is_exponent(tail));
            } else {
                assert(tail[1] == s@[r0 as int]);
                assert forall|i: int| 0 <= i < tail.skip(2).len() implies is_digit(
                    #[trigger] tail.skip(2)[i],
                ) by {
                    assert(tail.skip(2)[i] == s@[r1 + i]);
                }
                assert(tail.len() >= 3);
                assert(is_exponent(tail));
            }
            assert(is_number(body));
        }
        true
    } else {
        proof {
            lemma_bad_exponent(
                s@,
                start as int,
                p as int,
                mantissa_end as int,
                r1 as int,
                e as int,
            );
        }
        false
    }
}

/// The scanned runs witness a mantissa over the first `m - start` body
/// characters.
proof fn lemma_scanned_mantissa(src: Seq<char>, start: int, p: int, m: int)
    requires
        scan_facts(src, start, p, m),
        !(p == start && m <= p + 1),
    ensures
        is_mantissa(src.skip(start).take(m - start)),
        m - start > 0,
{
    let t = src.skip(start).take(m - start);
    assert(t.len() == m - start);
    assert(forall|i: int| 0 <= i < t.len() ==> t[i] == src[start + i]);
    if p == m {
        assert(p > start);
        assert(all_digits(t));
    } else {
        let k = p - start;
        assert(t[k] == '.');
        assert(t.len() >= 2);
        assert(forall|i: int| 0 <= i < t.len() && i != k ==> is_digit(#[trigger] t[i]));
    }
}

} // verus!
