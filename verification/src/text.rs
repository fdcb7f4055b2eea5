//! Verified text utilities: ASCII lowercasing, comma splitting, trimming,
//! substring search, string equality and decimal tokens. Tokenization here
//! is ASCII-based: the documents this library ingests use ASCII tokens for
//! every field these helpers touch.
use vstd::prelude::*;

use vstd::string::StrSliceExecFns;
use vstd::string::StringExecFns;

verus! {

/// Relies on `String::push`: appends exactly the one character.
#[verifier::external_body]
pub fn push_char(s: &mut String, c: char)
    ensures
        final(s)@ == old(s)@.push(c),
{
    s.push(c);
}

/// ASCII lowercase of one character; anything outside 'A'..'Z' is kept.
pub open spec fn lower_char(c: char) -> char {
    if 65 <= c as u32 && c as u32 <= 90 {
        ((c as u32 + 32) as u8) as char
    } else {
        c
    }
}

/// ASCII lowercase, character by character.
pub open spec fn lower(s: Seq<char>) -> Seq<char> {
    Seq::new(s.len(), |i: int| lower_char(s[i]))
}

/// One character, ASCII-lowercased.
pub fn lower_char_exec(c: char) -> (r: char)
    ensures
        r == lower_char(c),
{
    let b: u32 = c as u32;
    if 65 <= b && b <= 90 {
        ((b + 32) as u8) as char
    } else {
        c
    }
}

/// The whole string, ASCII-lowercased.
pub fn to_lower(s: &str) -> (r: String)
    ensures
        r@ == lower(s@),
{
    let n: usize = s.unicode_len();
    let mut r: String = String::new();
    let mut i: usize = 0;
    while i < n
        invariant
            n == s@.len(),
            i <= n,
            r@ == lower(s@).take(i as int),
        decreases n - i,
    {
        let c = s.get_char(i);
        push_char(&mut r, lower_char_exec(c));
        proof {
            assert(r@ =~= lower(s@).take(i + 1));
        }
        i = i + 1;
    }
    proof {
        assert(lower(s@).take(n as int) =~= lower(s@));
    }
    r
}

/// Exact string equality, decided character by character.
pub fn str_eq(a: &str, b: &str) -> (r: bool)
    ensures
        r == (a@ == b@),
{
    let na: usize = a.unicode_len();
    let nb: usize = b.unicode_len();
    if na != nb {
        proof {
            if a@ == b@ {
                assert(a@.len() == b@.len());
            }
        }
        return false;
    }
    let mut i: usize = 0;
    while i < na
        invariant
            na == a@.len(),
            na == b@.len(),
            i <= na,
            forall|k: int| 0 <= k < i ==> a@[k] == b@[k],
        decreases na - i,
    {
        if a.get_char(i) != b.get_char(i) {
            return false;
        }
        i = i + 1;
    }
    proof {
        assert(a@ =~= b@);
    }
    true
}

/// First index of `c` in `s`, or -1 when absent.
pub open spec fn find_char(s: Seq<char>, c: char) -> int
    decreases s.len(),
{
    if s.len() == 0 {
        -1
    } else if s.first() == c {
        0
    } else {
        let r = find_char(s.drop_first(), c);
        if r < 0 {
            -1
        } else {
            r + 1
        }
    }
}

/// `find_char` is the first occurrence: negative means the character does
/// not occur; otherwise it points at the first occurrence.
pub proof fn lemma_find_char(s: Seq<char>, c: char)
    ensures
        find_char(s, c) < 0 ==> forall|k: int| 0 <= k < s.len() ==> s[k] != c,
        find_char(s, c) >= 0 ==> {
            let j = find_char(s, c);
            &&& 0 <= j < s.len()
            &&& s[j] == c
            &&& forall|k: int| 0 <= k < j ==> s[k] != c
        },
    decreases s.len(),
{
    if s.len() > 0 && s.first() != c {
        lemma_find_char(s.drop_first(), c);
        let rest = s.drop_first();
        assert(forall|k: int| 0 <= k < rest.len() ==> rest[k] == s[k + 1]);
        let r = find_char(rest, c);
        if r < 0 {
            assert forall|k: int| 0 <= k < s.len() implies s[k] != c by {
                if k > 0 {
                    assert(rest[k - 1] == s[k]);
                }
            }
        } else {
            assert(rest[r] == s[r + 1]);
            assert forall|k: int| 0 <= k < r + 1 implies s[k] != c by {
                if k > 0 {
                    assert(rest[k - 1] == s[k]);
                }
            }
        }
    }
}

/// The comma-separated tokens of `s`, commas removed, empty tokens kept.
pub open spec fn split_commas(s: Seq<char>) -> Seq<Seq<char>>
    decreases s.len(),
{
    let i = find_char(s, ',');
    if i < 0 {
        seq![s]
    } else if 0 <= i < s.len() {
        seq![s.take(i)] + split_commas(s.skip(i + 1))
    } else {
        seq![s]
    }
}

/// Splits at commas; the result holds exactly the tokens of
/// [`split_commas`], in order.
pub fn split_commas_exec(s: &str) -> (r: Vec<String>)
    ensures
        r@.len() == split_commas(s@).len(),
        forall|k: int| 0 <= k < r@.len() ==> r@[k]@ == #[trigger] split_commas(s@)[k],
    decreases s@.len(),
{
    proof {
        lemma_find_char(s@, ',');
    }
    let n: usize = s.unicode_len();
    let mut i: usize = 0;
    let mut found: bool = false;
    while i < n && !found
        invariant
            n == s@.len(),
            i <= n,
            found ==> i < n && s@[i as int] == ',',
            forall|k: int| 0 <= k < i ==> s@[k] != ',',
        decreases n - i + (if found { 0int } else { 1int }),
    {
        if s.get_char(i) == ',' {
            found = true;
        } else {
            i = i + 1;
        }
    }
    if !found {
        let mut r: Vec<String> = Vec::new();
        r.push(s.to_owned());
        proof {
            assert(find_char(s@, ',') < 0);
            assert(r@[0]@ == split_commas(s@)[0]);
        }
        r
    } else {
        proof {
            lemma_find_char(s@, ',');
            assert(s@[i as int] == ',');
            assert(find_char(s@, ',') == i as int);
        }
        let head: String = s.substring_char(0, i).to_owned();
        let tail: &str = s.substring_char(i + 1, n);
        let mut r: Vec<String> = split_commas_exec(tail);
        r.insert(0, head);
        proof {
            assert(head@ == s@.take(i as int));
            assert(tail@ == s@.skip(i + 1));
            assert forall|k: int| 0 <= k < r@.len() implies r@[k]@ == #[trigger] split_commas(
                s@,
            )[k] by {
                if k == 0 {
                } else {
                    assert(r@[k] == r@.subrange(1, r@.len() as int)[k - 1]);
                }
            }
        }
        r
    }
}

/// An ASCII whitespace character.
pub open spec fn is_space(c: char) -> bool {
    c == ' ' || c == '\t' || c == '\r' || c == '\n'
}

/// `s` without leading ASCII whitespace.
pub open spec fn trim_start(s: Seq<char>) -> Seq<char>
    decreases s.len(),
{
    if s.len() > 0 && is_space(s.first()) {
        trim_start(s.drop_first())
    } else {
        s
    }
}

/// `s` without trailing ASCII whitespace.
pub open spec fn trim_end(s: Seq<char>) -> Seq<char>
    decreases s.len(),
{
    if s.len() > 0 && is_space(s.last()) {
        trim_end(s.drop_last())
    } else {
        s
    }
}

/// `s` without leading and trailing ASCII whitespace.
pub open spec fn trim(s: Seq<char>) -> Seq<char> {
    trim_end(trim_start(s))
}

/// When the first `k` characters are whitespace and the next one (if any)
/// is not, trimming the start drops exactly those `k`.
pub proof fn lemma_trim_start(s: Seq<char>, k: int)
    requires
        0 <= k <= s.len(),
        forall|j: int| 0 <= j < k ==> is_space(s[j]),
        k < s.len() ==> !is_space(s[k]),
    ensures
        trim_start(s) == s.skip(k),
    decreases k,
{
    if k == 0 {
        assert(s.skip(0) =~= s);
    } else {
        assert(is_space(s[0]));
        let rest = s.drop_first();
        assert(forall|j: int| 0 <= j < rest.len() ==> rest[j] == s[j + 1]);
        lemma_trim_start(rest, k - 1);
        assert(rest.skip(k - 1) =~= s.skip(k));
    }
}

/// When the last characters beyond `m` are whitespace and the one at
/// `m - 1` (if any) is not, trimming the end keeps exactly the first `m`.
pub proof fn lemma_trim_end(s: Seq<char>, m: int)
    requires
        0 <= m <= s.len(),
        forall|j: int| m <= j < s.len() ==> is_space(s[j]),
        m > 0 ==> !is_space(s[m - 1]),
    ensures
        trim_end(s) == s.take(m),
    decreases s.len() - m,
{
    if m == s.len() {
        if s.len() > 0 && is_space(s.last()) {
            assert(!is_space(s[m - 1]));
            assert(false);
        }
        assert(s.take(m) =~= s);
    } else {
        assert(is_space(s.last()));
        let rest = s.drop_last();
        lemma_trim_end(rest, m);
        assert(rest.take(m) =~= s.take(m));
    }
}

/// `s` with leading and trailing ASCII whitespace removed.
pub fn trim_exec(s: &str) -> (r: String)
    ensures
        r@ == trim(s@),
{
    let n: usize = s.unicode_len();
    let mut lo: usize = 0;
    let mut stop: bool = false;
    while lo < n && !stop
        invariant
            n == s@.len(),
            lo <= n,
            stop ==> lo < n && !is_space(s@[lo as int]),
            forall|j: int| 0 <= j < lo ==> is_space(s@[j]),
        decreases n - lo + (if stop { 0int } else { 1int }),
    {
        let c = s.get_char(lo);
        if c == ' ' || c == '\t' || c == '\r' || c == '\n' {
            lo = lo + 1;
        } else {
            stop = true;
        }
    }
    proof {
        lemma_trim_start(s@, lo as int);
    }
    let ghost t = s@.skip(lo as int);
    let mut hi: usize = n;
    let mut stop_end: bool = false;
    while hi > lo && !stop_end
        invariant
            n == s@.len(),
            lo <= hi <= n,
            stop_end ==> hi > lo && !is_space(s@[hi - 1]),
            forall|j: int| hi <= j < n ==> is_space(s@[j]),
        decreases hi + (if stop_end { 0int } else { 1int }),
    {
        let c = s.get_char(hi - 1);
        if c == ' ' || c == '\t' || c == '\r' || c == '\n' {
            hi = hi - 1;
        } else {
            stop_end = true;
        }
    }
    proof {
        assert(forall|j: int| 0 <= j < t.len() ==> t[j] == s@[j + lo]);
        lemma_trim_end(t, hi - lo);
    }
    let r: String = s.substring_char(lo, hi).to_owned();
    proof {
        assert(t.take(hi - lo) =~= s@.subrange(lo as int, hi as int));
    }
    r
}

/// First index at which `pat` occurs in `s` as a contiguous run, or -1.
pub open spec fn find_sub(s: Seq<char>, pat: Seq<char>) -> int
    decreases s.len(),
{
    if s.len() < pat.len() {
        -1
    } else if s.take(pat.len() as int) == pat {
        0
    } else if s.len() == 0 {
        -1
    } else {
        let r = find_sub(s.drop_first(), pat);
        if r < 0 {
            -1
        } else {
            r + 1
        }
    }
}

/// `find_sub` is the first occurrence of the pattern.
pub proof fn lemma_find_sub(s: Seq<char>, pat: Seq<char>)
    ensures
        find_sub(s, pat) < 0 ==> forall|k: int|
            0 <= k <= s.len() - pat.len() ==> #[trigger] s.subrange(k, k + pat.len()) != pat,
        find_sub(s, pat) >= 0 ==> {
            let j = find_sub(s, pat);
            &&& 0 <= j <= s.len() - pat.len()
            &&& s.subrange(j, j + pat.len()) == pat
            &&& forall|k: int| 0 <= k < j ==> #[trigger] s.subrange(k, k + pat.len()) != pat
        },
    decreases s.len(),
{
    if s.len() >= pat.len() && s.take(pat.len() as int) != pat && s.len() > 0 {
        lemma_find_sub(s.drop_first(), pat);
        let rest = s.drop_first();
        assert forall|k: int|
            0 <= k <= rest.len() - pat.len() implies #[trigger] rest.subrange(k, k + pat.len())
            =~= s.subrange(k + 1, k + 1 + pat.len()) by {}
        let r = find_sub(rest, pat);
        assert(s.subrange(0, pat.len() as int) =~= s.take(pat.len() as int));
        if r < 0 {
            assert forall|k: int|
                0 <= k <= s.len() - pat.len() implies #[trigger] s.subrange(k, k + pat.len())
                != pat by {
                if k > 0 {
                    assert(rest.subrange(k - 1, k - 1 + pat.len()) =~= s.subrange(
                        k,
                        k + pat.len(),
                    ));
                }
            }
        } else {
            assert(rest.subrange(r, r + pat.len()) =~= s.subrange(r + 1, r + 1 + pat.len()));
            assert forall|k: int|
                0 <= k < r + 1 implies #[trigger] s.subrange(k, k + pat.len()) != pat by {
                if k > 0 {
                    assert(rest.subrange(k - 1, k - 1 + pat.len()) =~= s.subrange(
                        k,
                        k + pat.len(),
                    ));
                }
            }
        }
    }
}

/// First index at which `pat` occurs in `s`, or the length of `s` when it
/// does not occur.
pub fn find_sub_exec(s: &str, pat: &str) -> (r: usize)
    ensures
        ({
            let j = find_sub(s@, pat@);
            if j >= 0 {
                r == j
            } else {
                r == s@.len()
            }
        }),
{
    let n: usize = s.unicode_len();
    let m: usize = pat.unicode_len();
    proof {
        lemma_find_sub(s@, pat@);
    }
    if m > n {
        return n;
    }
    let mut i: usize = 0;
    while i <= n - m
        invariant
            n == s@.len(),
            m == pat@.len(),
            m <= n,
            i <= n - m + 1,
            forall|k: int| 0 <= k < i ==> #[trigger] s@.subrange(k, k + pat@.len()) != pat@,
        decreases n + 1 - i,
    {
        let mut j: usize = 0;
        let mut matches: bool = true;
        while j < m
            invariant
                n == s@.len(),
                m == pat@.len(),
                i + m <= n,
                j <= m,
                matches == (s@.subrange(i as int, i + j) =~= pat@.take(j as int)),
            decreases m - j,
        {
            if s.get_char(i + j) != pat.get_char(j) {
                proof {
                    assert(s@.subrange(i as int, i + j + 1)[j as int] != pat@.take(j + 1)[j as int]);
                }
                matches = false;
                j = m;
            } else {
                proof {
                    if matches {
                        assert(s@.subrange(i as int, i + j + 1) =~= pat@.take(j + 1));
                    } else {
                        let w = choose|w: int|
                            0 <= w < j && s@.subrange(i as int, i + j as int)[w] != pat@.take(
                                j as int,
                            )[w];
                        assert(s@.subrange(i as int, i + j + 1)[w] != pat@.take(j + 1)[w]);
                    }
                }
                j = j + 1;
            }
        }
        if matches {
            proof {
                lemma_find_sub(s@, pat@);
                assert(pat@.take(m as int) =~= pat@);
                assert(s@.subrange(i as int, i as int + pat@.len()) == pat@);
                let j = find_sub(s@, pat@);
                if j < 0 {
                    assert(s@.subrange(i as int, i as int + pat@.len()) != pat@);
                }
            }
            return i;
        }
        proof {
            assert(s@.subrange(i as int, i + pat@.len()) != pat@);
        }
        i = i + 1;
    }
    proof {
        if find_sub(s@, pat@) >= 0 {
            let j = find_sub(s@, pat@);
            assert(s@.subrange(j, j + pat@.len()) != pat@);
            assert(false);
        }
    }
    n
}

/// The decimal digit characters.
pub open spec fn digit_char(d: int) -> char {
    "0123456789"@[d]
}

/// Decimal digits of `v`, most significant first, no leading zeros.
pub open spec fn dec_digits(v: nat) -> Seq<char>
    decreases v,
{
    if v < 10 {
        seq![digit_char(v as int)]
    } else {
        dec_digits(v / 10).push(digit_char((v % 10) as int))
    }
}

/// Distinct numbers have distinct decimal digit strings.
pub proof fn lemma_dec_digits_injective(a: nat, b: nat)
    requires
        dec_digits(a) == dec_digits(b),
    ensures
        a == b,
    decreases a,
{
    reveal_strlit("0123456789");
    assert(forall|d: int, e: int|
        0 <= d < e < 10 ==> digit_char(d) != digit_char(e)) by {
        reveal_strlit("0123456789");
    }
    if a < 10 && b < 10 {
        assert(dec_digits(a).last() == digit_char(a as int));
        assert(dec_digits(b).last() == digit_char(b as int));
    } else if a < 10 {
        assert(dec_digits(a).len() == 1);
        assert(dec_digits(b).len() == dec_digits(b / 10).len() + 1);
        assert(dec_digits(b / 10).len() >= 1) by {
            lemma_dec_digits_len(b / 10);
        }
    } else if b < 10 {
        assert(dec_digits(b).len() == 1);
        assert(dec_digits(a / 10).len() >= 1) by {
            lemma_dec_digits_len(a / 10);
        }
    } else {
        assert(dec_digits(a).last() == digit_char((a % 10) as int));
        assert(dec_digits(b).last() == digit_char((b % 10) as int));
        assert(a % 10 == b % 10);
        assert(dec_digits(a).drop_last() == dec_digits(a / 10));
        assert(dec_digits(b).drop_last() == dec_digits(b / 10));
        lemma_dec_digits_injective(a / 10, b / 10);
    }
}

/// A decimal digit string is never empty.
pub proof fn lemma_dec_digits_len(v: nat)
    ensures
        dec_digits(v).len() >= 1,
    decreases v,
{
    if v >= 10 {
        lemma_dec_digits_len(v / 10);
    }
}

/// Appends the decimal digits of `v`.
pub fn push_decimal(v: u64, out: &mut String)
    ensures
        final(out)@ == old(out)@ + dec_digits(v as nat),
    decreases v,
{
    if v >= 10 {
        push_decimal(v / 10, out);
    }
    let d: usize = (v % 10) as usize;
    let ds: &str = "0123456789";
    proof {
        reveal_strlit("0123456789");
    }
    let c = ds.get_char(d);
    push_char(out, c);
    proof {
        if v < 10 {
            assert(old(out)@ + dec_digits(v as nat) =~= old(out)@.push(digit_char(v as int)));
        } else {
            assert(old(out)@ + dec_digits(v as nat) =~= (old(out)@ + dec_digits(
                (v / 10) as nat,
            )).push(digit_char((v % 10) as int)));
        }
    }
}

} // verus!
