use vstd::prelude::*;

use crate::documents::DocumentManager;

verus! {

/// A coordinate in the text buffer.
pub type CoordType = isize;

/// A position in the text buffer: `x` is the column, `y` the line, both counted from 0.
#[derive(Debug, Clone, Copy, PartialEq, Eq, Structural)]
pub struct Point {
    pub x: CoordType,
    pub y: CoordType,
}

/// Whether `b` is one of the bytes `0` to `9`.
pub open spec fn is_digit_byte(b: u8) -> bool {
    48 <= b <= 57
}

pub open spec fn all_digit_bytes(s: Seq<u8>) -> bool {
    forall|i: int| 0 <= i < s.len() ==> is_digit_byte(#[trigger] s[i])
}

/// The number that the decimal digits `s` spell.
pub open spec fn digits_value(s: Seq<u8>) -> int
    decreases s.len(),
{
    if s.len() == 0 {
        0
    } else {
        digits_value(s.drop_last()) * 10 + (s.last() - 48)
    }
}

/// A line or column number written in decimal: at least one digit, nothing but digits,
/// and small enough for a `CoordType`.
pub open spec fn parse_coord(s: Seq<u8>) -> Option<int> {
    if s.len() > 0 && all_digit_bytes(s) && digits_value(s) <= isize::MAX {
        Some(digits_value(s))
    } else {
        None
    }
}

/// The position of the last `:` in `s` before `end`.
pub open spec fn last_colon_before(s: Seq<u8>, end: int) -> Option<int> {
    if exists|i: int| 0 <= i < end && s[i] == 58u8 {
        Some(
            choose|i: int|
                0 <= i < end && s[i] == 58u8 && forall|j: int| i < j < end ==> s[j] != 58u8,
        )
    } else {
        None
    }
}

/// A 1-based line or column number turned into a 0-based coordinate (never below 0).
pub open spec fn zero_based(n: int) -> int {
    if n - 1 > 0 {
        n - 1
    } else {
        0
    }
}

/// How `name:line:column` or `name:line` splits: the length of the name that is kept,
/// and the position to go to, if the input carries one.
pub open spec fn spec_parse_filename_goto(s: Seq<u8>) -> (int, Option<Point>) {
    match last_colon_before(s, s.len() as int) {
        Some(colend) => if colend > 0 {
            match parse_coord(s.subrange(colend + 1, s.len() as int)) {
                Some(last) => {
                    let last: int = zero_based(last);
                    match last_colon_before(s, colend) {
                        Some(colbeg) => if colbeg != 0 && parse_coord(
                            s.subrange(colbeg + 1, colend),
                        ) is Some {
                            let first: int = zero_based(
                                parse_coord(s.subrange(colbeg + 1, colend))->0,
                            );
                            (colbeg, Some(Point { x: last as isize, y: first as isize }))
                        } else {
                            (colend, Some(Point { x: 0, y: last as isize }))
                        },
                        None => (colend, Some(Point { x: 0, y: last as isize })),
                    }
                },
                None => (s.len() as int, None),
            }
        } else {
            (s.len() as int, None)
        },
        None => (s.len() as int, None),
    }
}

proof fn lemma_digits_value_nonneg(s: Seq<u8>)
    requires
        all_digit_bytes(s),
    ensures
        digits_value(s) >= 0,
    decreases s.len(),
{
    if s.len() > 0 {
        assert(is_digit_byte(s[s.len() - 1]));
        lemma_digits_value_nonneg(s.drop_last());
    }
}

/// A prefix of a digit string never spells a larger number than the whole string.
proof fn lemma_digits_prefix_le(s: Seq<u8>, k: int)
    requires
        all_digit_bytes(s),
        0 <= k <= s.len(),
    ensures
        digits_value(s.take(k)) <= digits_value(s),
    decreases s.len(),
{
    if k < s.len() {
        let t = s.drop_last();
        assert(t.take(k) =~= s.take(k));
        assert(is_digit_byte(s[s.len() - 1]));
        lemma_digits_prefix_le(t, k);
        lemma_digits_value_nonneg(t);
    } else {
        assert(s.take(k) =~= s);
    }
}

/// Reads the decimal number in `bytes[lo..hi]` with `checked_mul` and
/// `checked_add`: `None` for an empty run, a byte that is not a digit, or an overflow.
fn parse_coord_exec(bytes: &[u8], lo: usize, hi: usize) -> (r: Option<CoordType>)
    requires
        lo <= hi <= bytes@.len(),
    ensures
        match r {
            Some(n) => n >= 0 && parse_coord(bytes@.subrange(lo as int, hi as int)) == Some(
                n as int,
            ),
            None => parse_coord(bytes@.subrange(lo as int, hi as int)) is None,
        },
{
    let ghost s = bytes@.subrange(lo as int, hi as int);
    if lo == hi {
        return None;
    }
    let mut num: CoordType = 0;
    let mut i: usize = lo;
    while i < hi
        invariant
            lo <= i <= hi <= bytes@.len(),
            s == bytes@.subrange(lo as int, hi as int),
            all_digit_bytes(s.take(i - lo)),
            num as int == digits_value(s.take(i - lo)),
        decreases hi - i,
    {
        let b: u8 = bytes[i];
        assert(s[i - lo] == b);
        if !(b >= 48 && b <= 57) {
            assert(!all_digit_bytes(s));
            return None;
        }
        let digit: CoordType = (b - 48) as CoordType;
        let ghost next = s.take(i - lo + 1);
        assert(next.drop_last() =~= s.take(i - lo));
        assert(next.last() == b);
        assert(all_digit_bytes(next)) by {
            assert forall|j: int| 0 <= j < next.len() implies is_digit_byte(#[trigger] next[j]) by {
                if j < next.len() - 1 {
                    assert(next[j] == s.take(i - lo)[j]);
                }
            }
        }
        match num.checked_mul(10) {
            Some(m) => match m.checked_add(digit) {
                Some(n) => {
                    num = n;
                },
                None => {
                    proof {
                        if all_digit_bytes(s) {
                            lemma_digits_prefix_le(s, i - lo + 1);
                        }
                    }
                    return None;
                },
            },
            None => {
                proof {
                    lemma_digits_value_nonneg(s.take(i - lo));
                    if all_digit_bytes(s) {
                        lemma_digits_prefix_le(s, i - lo + 1);
                    }
                }
                return None;
            },
        }
        i = i + 1;
    }
    assert(s.take(hi - lo) =~= s);
    proof {
        lemma_digits_value_nonneg(s);
    }
    Some(num)
}

/// The position of the last `:` in `bytes[..end]` (what `memrchr2(b':', b':', bytes, end)` finds).
fn last_colon(bytes: &[u8], end: usize) -> (r: Option<usize>)
    requires
        end <= bytes@.len(),
    ensures
        match r {
            Some(i) => i < end && bytes@[i as int] == 58u8 && last_colon_before(bytes@, end as int)
                == Some(i as int),
            None => last_colon_before(bytes@, end as int) is None,
        },
{
    let mut i: usize = end;
    while i > 0
        invariant
            i <= end <= bytes@.len(),
            forall|j: int| i <= j < end ==> bytes@[j] != 58u8,
        decreases i,
    {
        if bytes[i - 1] == 58u8 {
            let k: usize = i - 1;
            let ghost w = choose|w: int|
                0 <= w < end && bytes@[w] == 58u8 && forall|j: int|
                    w < j < end ==> bytes@[j] != 58u8;
            assert(0 <= k < end && bytes@[k as int] == 58u8 && forall|j: int|
                k < j < end ==> bytes@[j] != 58u8);
            assert(w == k) by {
                if w < k {
                } else if w > k {
                }
            }
            return Some(k);
        }
        i = i - 1;
    }
    None
}

/// `n` in decimal, as bytes.
pub open spec fn decimal_bytes(n: nat) -> Seq<u8>
    decreases n,
{
    if n < 10 {
        seq![(n + 48) as u8]
    } else {
        decimal_bytes(n / 10).push(((n % 10) + 48) as u8)
    }
}

proof fn lemma_decimal_bytes(n: nat)
    ensures
        decimal_bytes(n).len() > 0,
        all_digit_bytes(decimal_bytes(n)),
        digits_value(decimal_bytes(n)) == n,
    decreases n,
{
    let d = decimal_bytes(n);
    if n < 10 {
        assert(d.drop_last() =~= Seq::<u8>::empty());
        assert(d.last() == (n + 48) as u8);
        assert(((n + 48) as u8) as int == n + 48);
        assert(digits_value(d) == digits_value(d.drop_last()) * 10 + (d.last() - 48));
    }
    if n >= 10 {
        lemma_decimal_bytes(n / 10);
        assert(d.drop_last() =~= decimal_bytes(n / 10));
        assert(d.last() == ((n % 10) + 48) as u8);
        assert((((n % 10) + 48) as u8) as int == (n % 10) + 48);
        assert(digits_value(d) == digits_value(d.drop_last()) * 10 + (d.last() - 48));
        assert forall|i: int| 0 <= i < d.len() implies is_digit_byte(#[trigger] d[i]) by {
            if i < d.len() - 1 {
                assert(d[i] == decimal_bytes(n / 10)[i]);
            }
        }
        assert(n == (n / 10) * 10 + n % 10);
    }
}

proof fn lemma_last_colon_at(s: Seq<u8>, end: int, k: int)
    requires
        0 <= k < end <= s.len(),
        s[k] == 58u8,
        forall|j: int| k < j < end ==> s[j] != 58u8,
    ensures
        last_colon_before(s, end) == Some(k),
{
    let c = choose|i: int| 0 <= i < end && s[i] == 58u8 && forall|j: int| i < j < end ==> s[j] != 58u8;
    assert(0 <= c < end && s[c] == 58u8 && forall|j: int| c < j < end ==> s[j] != 58u8);
    if c < k {
    } else if c > k {
    }
}

proof fn lemma_no_colon(s: Seq<u8>, end: int)
    requires
        0 <= end <= s.len(),
        forall|j: int| 0 <= j < end ==> s[j] != 58u8,
    ensures
        last_colon_before(s, end) is None,
{
}

/// A name without `:` followed by `:line` splits back into the name and the 0-based line;
/// followed by `:line:column`, into the name, the 0-based line and the 0-based column.
pub proof fn lemma_goto_round_trip(name: Seq<u8>, line: nat, column: nat)
    requires
        name.len() > 0,
        forall|i: int| 0 <= i < name.len() ==> name[i] != 58u8,
        1 <= line <= isize::MAX,
        1 <= column <= isize::MAX,
    ensures
        spec_parse_filename_goto(name + seq![58u8] + decimal_bytes(line)) == (
            name.len() as int,
            Some(Point { x: 0, y: (line - 1) as isize }),
        ),
        spec_parse_filename_goto(
            name + seq![58u8] + decimal_bytes(line) + seq![58u8] + decimal_bytes(column),
        ) == (
            name.len() as int,
            Some(Point { x: (column - 1) as isize, y: (line - 1) as isize }),
        ),
{
    lemma_decimal_bytes(line);
    lemma_decimal_bytes(column);
    let d1 = decimal_bytes(line);
    let d2 = decimal_bytes(column);
    let n = name.len() as int;

    let s = name + seq![58u8] + d1;
    assert(s[n] == 58u8);
    assert forall|j: int| n < j < s.len() implies s[j] != 58u8 by {
        assert(s[j] == d1[j - n - 1]);
        assert(is_digit_byte(d1[j - n - 1]));
    }
    lemma_last_colon_at(s, s.len() as int, n);
    assert(s.subrange(n + 1, s.len() as int) =~= d1);
    assert forall|j: int| 0 <= j < n implies s[j] != 58u8 by {
        assert(s[j] == name[j]);
    }
    lemma_no_colon(s, n);

    let t = name + seq![58u8] + d1 + seq![58u8] + d2;
    let m = n + 1 + d1.len();
    assert(t[m] == 58u8);
    assert(t[n] == 58u8);
    assert forall|j: int| m < j < t.len() implies t[j] != 58u8 by {
        assert(t[j] == d2[j - m - 1]);
        assert(is_digit_byte(d2[j - m - 1]));
    }
    lemma_last_colon_at(t, t.len() as int, m);
    assert forall|j: int| n < j < m implies t[j] != 58u8 by {
        assert(t[j] == d1[j - n - 1]);
        assert(is_digit_byte(d1[j - n - 1]));
    }
    lemma_last_colon_at(t, m, n);
    assert(t.subrange(m + 1, t.len() as int) =~= d2);
    assert(t.subrange(n + 1, m) =~= d1);
}

proof fn lemma_last_colon_exists(s: Seq<u8>, end: int)
    requires
        0 <= end <= s.len(),
        exists|i: int| 0 <= i < end && s[i] == 58u8,
    ensures
        exists|i: int| 0 <= i < end && s[i] == 58u8 && forall|j: int| i < j < end ==> s[j] != 58u8,
    decreases end,
{
    if s[end - 1] == 58u8 {
        assert(0 <= end - 1 < end && s[end - 1] == 58u8 && forall|j: int| end - 1 < j < end ==> s[j] != 58u8);
    } else {
        let w = choose|i: int| 0 <= i < end && s[i] == 58u8;
        assert(0 <= w < end - 1);
        lemma_last_colon_exists(s, end - 1);
        let k = choose|i: int| 0 <= i < end - 1 && s[i] == 58u8 && forall|j: int| i < j < end - 1 ==> s[j] != 58u8;
        assert(0 <= k < end && s[k] == 58u8 && forall|j: int| k < j < end ==> s[j] != 58u8);
    }
}

proof fn lemma_last_colon_range(s: Seq<u8>, end: int)
    requires
        0 <= end <= s.len(),
    ensures
        last_colon_before(s, end) matches Some(c) ==> 0 <= c < end,
{
    if exists|i: int| 0 <= i < end && s[i] == 58u8 {
        lemma_last_colon_exists(s, end);
    }
}

/// The name that comes back is always a prefix of the input, and the whole input when no
/// position was found.
pub proof fn lemma_goto_keeps_prefix(s: Seq<u8>)
    ensures
        0 <= spec_parse_filename_goto(s).0 <= s.len(),
        spec_parse_filename_goto(s).1 is None ==> spec_parse_filename_goto(s).0 == s.len(),
{
    lemma_last_colon_range(s, s.len() as int);
    if let Some(c) = last_colon_before(s, s.len() as int) {
        lemma_last_colon_range(s, c);
    }
}

impl DocumentManager {
    /// Splits `name:line:column` (or `name:line`) into the name and a 0-based position.
    /// Line and column are 1-based in the input. An input whose name part would be empty,
    /// or whose trailing part is not a number, is kept whole with no position.
    #[verifier::rlimit(40)]
    pub fn parse_filename_goto(path: &[u8]) -> (r: (&[u8], Option<Point>))
        ensures
            r.0@ == path@.subrange(0, spec_parse_filename_goto(path@).0),
            r.1 == spec_parse_filename_goto(path@).1,
    {
        let len: usize = path.len();
        let colend = match last_colon(path, len) {
            Some(colend) => if colend > 0 {
                colend
            } else {
                return (path, None);
            },
            None => {
                assert(path@.subrange(0, len as int) =~= path@);
                return (path, None);
            },
        };
        let last = match parse_coord_exec(path, colend + 1, len) {
            Some(last) => last,
            None => {
                assert(path@.subrange(0, len as int) =~= path@);
                return (path, None);
            },
        };
        let last: CoordType = if last - 1 > 0 {
            last - 1
        } else {
            0
        };
        let mut keep: usize = colend;
        let mut goto = Point { x: 0, y: last };
        match last_colon(path, colend) {
            Some(colbeg) => {
                if colbeg != 0 {
                    match parse_coord_exec(path, colbeg + 1, colend) {
                        Some(first) => {
                            let first: CoordType = if first - 1 > 0 {
                                first - 1
                            } else {
                                0
                            };
                            keep = colbeg;
                            goto = Point { x: last, y: first };
                        },
                        None => {},
                    }
                }
            },
            None => {},
        }
        let ghost spec = spec_parse_filename_goto(path@);
        assert(spec.0 == keep as int && spec.1 == Some(goto));
        (&path[0..keep], Some(goto))
    }
}

} // verus!
