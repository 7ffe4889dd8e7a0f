use vstd::prelude::*;

verus! {

/// The characters of `s`, collected into a vector.
pub fn chars_of(s: &str) -> (v: Vec<char>)
    ensures
        v@ == s@,
{
    let mut v: Vec<char> = Vec::new();
    for c in it: s.chars()
        invariant
            it.seq() == s@,
            v@ == it.seq().take(it.index()),
    {
        v.push(c);
    }
    v
}

/// Whether `c` has the Unicode `White_Space` property (what `char::is_whitespace` tests).
pub open spec fn is_white_space(c: char) -> bool {
    ||| ('\u{9}' <= c && c <= '\u{d}')
    ||| c == ' '
    ||| c == '\u{85}'
    ||| c == '\u{a0}'
    ||| c == '\u{1680}'
    ||| ('\u{2000}' <= c && c <= '\u{200a}')
    ||| c == '\u{2028}'
    ||| c == '\u{2029}'
    ||| c == '\u{202f}'
    ||| c == '\u{205f}'
    ||| c == '\u{3000}'
}

pub fn char_is_whitespace(c: char) -> (r: bool)
    ensures
        r == is_white_space(c),
{
    ('\u{9}' <= c && c <= '\u{d}') || c == ' ' || c == '\u{85}' || c == '\u{a0}' || c
        == '\u{1680}' || ('\u{2000}' <= c && c <= '\u{200a}') || c == '\u{2028}' || c
        == '\u{2029}' || c == '\u{202f}' || c == '\u{205f}' || c == '\u{3000}'
}

/// Number of white-space characters at the start of `s`.
pub open spec fn leading_white_space(s: Seq<char>) -> nat
    decreases s.len(),
{
    if s.len() > 0 && is_white_space(s[0]) {
        1 + leading_white_space(s.drop_first())
    } else {
        0
    }
}

/// Number of white-space characters at the end of `s`.
pub open spec fn trailing_white_space(s: Seq<char>) -> nat
    decreases s.len(),
{
    if s.len() > 0 && is_white_space(s.last()) {
        1 + trailing_white_space(s.drop_last())
    } else {
        0
    }
}

/// `s` without its leading white space (`str::trim_start`).
pub open spec fn trim_start(s: Seq<char>) -> Seq<char> {
    s.skip(leading_white_space(s) as int)
}

/// `s` without leading and trailing white space (`str::trim`).
pub open spec fn trim(s: Seq<char>) -> Seq<char> {
    let t = trim_start(s);
    t.take(t.len() - trailing_white_space(t))
}

pub proof fn lemma_leading_white_space(s: Seq<char>)
    ensures
        leading_white_space(s) <= s.len(),
        forall|i: int| 0 <= i < leading_white_space(s) ==> is_white_space(#[trigger] s[i]),
        leading_white_space(s) < s.len() ==> !is_white_space(s[leading_white_space(s) as int]),
    decreases s.len(),
{
    if s.len() > 0 && is_white_space(s[0]) {
        lemma_leading_white_space(s.drop_first());
        assert forall|i: int| 0 <= i < leading_white_space(s) implies is_white_space(
            #[trigger] s[i],
        ) by {
            if i > 0 {
                assert(s[i] == s.drop_first()[i - 1]);
            }
        }
    }
}

pub proof fn lemma_trailing_white_space(s: Seq<char>)
    ensures
        trailing_white_space(s) <= s.len(),
        forall|i: int|
            s.len() - trailing_white_space(s) <= i < s.len() ==> is_white_space(#[trigger] s[i]),
        trailing_white_space(s) < s.len() ==> !is_white_space(
            s[s.len() - trailing_white_space(s) - 1],
        ),
    decreases s.len(),
{
    if s.len() > 0 && is_white_space(s.last()) {
        lemma_trailing_white_space(s.drop_last());
        assert forall|i: int|
            s.len() - trailing_white_space(s) <= i < s.len() implies is_white_space(
            #[trigger] s[i],
        ) by {
            if i < s.len() - 1 {
                assert(s[i] == s.drop_last()[i]);
            }
        }
    }
}

/// Index of the first character of `v` that is not white space (or `v.len()`).
pub fn skip_white_space(v: &Vec<char>) -> (r: usize)
    ensures
        r == leading_white_space(v@),
{
    proof {
        lemma_leading_white_space(v@);
    }
    let mut i: usize = 0;
    while i < v.len() && char_is_whitespace(v[i])
        invariant
            i <= v@.len(),
            i <= leading_white_space(v@),
            leading_white_space(v@) <= v@.len(),
            forall|j: int| 0 <= j < leading_white_space(v@) ==> is_white_space(#[trigger] v@[j]),
            leading_white_space(v@) < v@.len() ==> !is_white_space(
                v@[leading_white_space(v@) as int],
            ),
        decreases v.len() - i,
    {
        i = i + 1;
    }
    i
}

/// Index just past the last character of `v` that is not white space (or 0).
pub fn trimmed_end(v: &Vec<char>) -> (r: usize)
    ensures
        r == v@.len() - trailing_white_space(v@),
{
    proof {
        lemma_trailing_white_space(v@);
    }
    let mut i: usize = v.len();
    while i > 0 && char_is_whitespace(v[i - 1])
        invariant
            i <= v@.len(),
            v@.len() - trailing_white_space(v@) <= i,
            trailing_white_space(v@) <= v@.len(),
            forall|j: int|
                v@.len() - trailing_white_space(v@) <= j < v@.len() ==> is_white_space(
                    #[trigger] v@[j],
                ),
            trailing_white_space(v@) < v@.len() ==> !is_white_space(
                v@[v@.len() - trailing_white_space(v@) - 1],
            ),
        decreases i,
    {
        i = i - 1;
    }
    i
}

proof fn lemma_trailing_of_suffix(s: Seq<char>, k: int)
    requires
        0 <= k <= s.len() - trailing_white_space(s),
    ensures
        trailing_white_space(s.skip(k)) == trailing_white_space(s),
    decreases s.len(),
{
    lemma_trailing_white_space(s);
    if s.len() > 0 && is_white_space(s.last()) {
        let d = s.drop_last();
        assert(s.skip(k).drop_last() =~= d.skip(k));
        assert(s.skip(k).last() == s.last());
        lemma_trailing_of_suffix(d, k);
    } else if k < s.len() {
        assert(s.skip(k).last() == s.last());
    } else {
        assert(s.skip(k).len() == 0);
    }
}

/// `trim(s)` is the part of `s` between its leading and its trailing white space.
pub proof fn lemma_trim_is_subrange(s: Seq<char>)
    ensures
        ({
            let lo = leading_white_space(s) as int;
            let hi = s.len() - trailing_white_space(s);
            trim(s) == if lo <= hi {
                s.subrange(lo, hi)
            } else {
                s.subrange(lo, lo)
            }
        }),
{
    lemma_leading_white_space(s);
    lemma_trailing_white_space(s);
    let lo = leading_white_space(s) as int;
    let hi = s.len() - trailing_white_space(s);
    let t = s.skip(lo);
    if lo < s.len() {
        assert(!is_white_space(s[lo]));
        if lo >= hi {
            assert(is_white_space(s[lo]));
        }
        lemma_trailing_of_suffix(s, lo);
        assert(trim(s) =~= s.subrange(lo, hi));
    } else {
        lemma_trailing_white_space(t);
        assert(t.len() == 0);
        assert(trim(s) =~= s.subrange(lo, lo));
    }
}

/// Whether `needle` occurs in `v` once white space is trimmed from both ends of `v`.
pub fn trimmed_contains(v: &Vec<char>, needle: &str) -> (r: bool)
    ensures
        r == seq_contains(trim(v@), needle@),
{
    proof {
        lemma_trim_is_subrange(v@);
        lemma_leading_white_space(v@);
        lemma_trailing_white_space(v@);
    }
    let lo = skip_white_space(v);
    let hi = trimmed_end(v);
    let n = chars_of(needle);
    if lo <= hi {
        occurs_within(v, lo, hi, &n)
    } else {
        occurs_within(v, lo, lo, &n)
    }
}

/// Whether `needle` occurs in `hay` starting at position `i`.
pub open spec fn occurs_at(hay: Seq<char>, needle: Seq<char>, i: int) -> bool {
    0 <= i && i + needle.len() <= hay.len() && hay.subrange(i, i + needle.len()) == needle
}

/// Whether `needle` occurs somewhere in `hay` (`str::contains`).
pub open spec fn seq_contains(hay: Seq<char>, needle: Seq<char>) -> bool {
    exists|i: int| occurs_at(hay, needle, i)
}

/// Whether `hay` starts with `prefix` (`str::starts_with`).
pub open spec fn seq_starts_with(hay: Seq<char>, prefix: Seq<char>) -> bool {
    occurs_at(hay, prefix, 0)
}

/// Whether `hay` ends with `suffix` (`str::ends_with`).
pub open spec fn seq_ends_with(hay: Seq<char>, suffix: Seq<char>) -> bool {
    occurs_at(hay, suffix, hay.len() - suffix.len())
}

/// Whether `needle` occurs in `hay` at position `i`.
pub fn occurs_at_exec(hay: &Vec<char>, needle: &Vec<char>, i: usize) -> (r: bool)
    ensures
        r == occurs_at(hay@, needle@, i as int),
{
    if i > hay.len() || needle.len() > hay.len() - i {
        return false;
    }
    let mut k: usize = 0;
    while k < needle.len()
        invariant
            i + needle@.len() <= hay@.len(),
            hay@.len() == hay.len(),
            k <= needle@.len(),
            forall|j: int| 0 <= j < k ==> hay@[i + j] == needle@[j],
        decreases needle.len() - k,
    {
        if hay[i + k] != needle[k] {
            assert(hay@.subrange(i as int, i + needle@.len())[k as int] != needle@[k as int]);
            return false;
        }
        k = k + 1;
    }
    assert(hay@.subrange(i as int, i + needle@.len()) =~= needle@);
    true
}

/// Whether `needle` occurs in `hay` at a position in `lo..` that ends at or before `hi`.
pub fn occurs_within(hay: &Vec<char>, lo: usize, hi: usize, needle: &Vec<char>) -> (r: bool)
    requires
        lo <= hi <= hay@.len(),
    ensures
        r == seq_contains(hay@.subrange(lo as int, hi as int), needle@),
{
    let ghost sub = hay@.subrange(lo as int, hi as int);
    if needle.len() > hi - lo {
        assert forall|i: int| !occurs_at(sub, needle@, i) by {}
        return false;
    }
    let last = hi - needle.len();
    let mut i: usize = lo;
    loop
        invariant
            lo <= i <= last,
            last + needle@.len() == hi,
            hi <= hay@.len(),
            sub == hay@.subrange(lo as int, hi as int),
            forall|j: int| lo <= j < i ==> !occurs_at(sub, needle@, #[trigger] (j - lo)),
        ensures
            i == last,
            forall|j: int| lo <= j <= i ==> !occurs_at(sub, needle@, #[trigger] (j - lo)),
        decreases last - i,
    {
        if occurs_at_exec(hay, needle, i) {
            assert(sub.subrange(i - lo, i - lo + needle@.len()) =~= hay@.subrange(
                i as int,
                i + needle@.len(),
            ));
            assert(occurs_at(sub, needle@, i - lo));
            return true;
        }
        assert(!occurs_at(sub, needle@, i - lo)) by {
            if occurs_at(sub, needle@, i - lo) {
                assert(sub.subrange(i - lo, i - lo + needle@.len()) =~= hay@.subrange(
                    i as int,
                    i + needle@.len(),
                ));
            }
        }
        if i == last {
            break;
        }
        i = i + 1;
    }
    assert forall|k: int| !occurs_at(sub, needle@, k) by {
        if occurs_at(sub, needle@, k) {
            let j = k + lo;
            assert(lo <= j <= i);
            assert(!occurs_at(sub, needle@, j - lo));
        }
    }
    false
}

/// Whether the characters in `v` spell out `lit`.
pub fn is_literal(v: &Vec<char>, lit: &str) -> (r: bool)
    ensures
        r == (v@ == lit@),
{
    let w = chars_of(lit);
    if v.len() != w.len() {
        return false;
    }
    let mut k: usize = 0;
    while k < v.len()
        invariant
            v@.len() == w@.len(),
            w@ == lit@,
            k <= v@.len(),
            forall|j: int| 0 <= j < k ==> v@[j] == w@[j],
        decreases v.len() - k,
    {
        if v[k] != w[k] {
            return false;
        }
        k = k + 1;
    }
    assert(v@ =~= w@);
    true
}

/// Whether `v` starts with `lit`.
pub fn starts_with_literal(v: &Vec<char>, lit: &str) -> (r: bool)
    ensures
        r == seq_starts_with(v@, lit@),
{
    let w = chars_of(lit);
    occurs_at_exec(v, &w, 0)
}

/// Whether `v` ends with `lit`.
pub fn ends_with_literal(v: &Vec<char>, lit: &str) -> (r: bool)
    ensures
        r == seq_ends_with(v@, lit@),
{
    let w = chars_of(lit);
    if w.len() > v.len() {
        return false;
    }
    occurs_at_exec(v, &w, v.len() - w.len())
}

/// Index of the first occurrence of `c` in `s`, if any (`str::find` with a character).
pub open spec fn first_index_of(s: Seq<char>, c: char) -> Option<int>
    decreases s.len(),
{
    if s.len() == 0 {
        None
    } else if s[0] == c {
        Some(0)
    } else {
        match first_index_of(s.drop_first(), c) {
            Some(i) => Some(i + 1),
            None => None,
        }
    }
}

pub proof fn lemma_first_index_of(s: Seq<char>, c: char)
    ensures
        match first_index_of(s, c) {
            Some(i) => 0 <= i < s.len() && s[i] == c && forall|j: int| 0 <= j < i ==> s[j] != c,
            None => forall|i: int| 0 <= i < s.len() ==> s[i] != c,
        },
    decreases s.len(),
{
    if s.len() > 0 && s[0] != c {
        lemma_first_index_of(s.drop_first(), c);
        assert forall|j: int| 1 <= j < s.len() implies s[j] == s.drop_first()[j - 1] by {}
    }
}

/// `seq_starts_with(t, seq![c])` is a test of the first character.
pub proof fn lemma_starts_with_char(t: Seq<char>, c: char)
    ensures
        seq_starts_with(t, seq![c]) == (t.len() > 0 && t[0] == c),
{
    if t.len() > 0 {
        if t[0] == c {
            assert(t.subrange(0, 1) =~= seq![c]);
        } else {
            assert(t.subrange(0, 1)[0] != seq![c][0]);
        }
    }
}

pub fn find_char(v: &Vec<char>, c: char) -> (r: Option<usize>)
    ensures
        match r {
            Some(i) => i < v@.len() && v@[i as int] == c && first_index_of(v@, c) == Some(i as int),
            None => first_index_of(v@, c) is None,
        },
{
    proof {
        lemma_first_index_of(v@, c);
    }
    let mut i: usize = 0;
    while i < v.len()
        invariant
            i <= v@.len(),
            forall|j: int| 0 <= j < i ==> v@[j] != c,
            match first_index_of(v@, c) {
                Some(k) => 0 <= k < v@.len() && v@[k] == c && forall|j: int| 0 <= j < k ==> v@[j] != c,
                None => forall|k: int| 0 <= k < v@.len() ==> v@[k] != c,
            },
        decreases v.len() - i,
    {
        if v[i] == c {
            return Some(i);
        }
        i = i + 1;
    }
    None
}

/// Builds a `String` from a vector of characters.
pub fn string_of(v: &Vec<char>, lo: usize, hi: usize) -> (s: String)
    requires
        lo <= hi <= v@.len(),
    ensures
        s@ == v@.subrange(lo as int, hi as int),
{
    let mut s = String::new();
    let mut i: usize = lo;
    while i < hi
        invariant
            lo <= i <= hi <= v@.len(),
            s@ == v@.subrange(lo as int, i as int),
        decreases hi - i,
    {
        let mut buf = [0u8; 4];
        let piece: &str = encode_char(v[i], &mut buf);
        s.append(piece);
        assert(s@ =~= v@.subrange(lo as int, i + 1));
        i = i + 1;
    }
    s
}

/// `char::encode_utf8`: the text holding exactly the character `c`.
#[verifier::external_body]
fn encode_char<'a>(c: char, buf: &'a mut [u8; 4]) -> (r: &'a str)
    ensures
        r@ == seq![c],
{
    c.encode_utf8(buf)
}

} // verus!
