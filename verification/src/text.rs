//! Character-level string operations used throughout the crate, each stated
//! over the `Seq<char>` view of the strings involved.

use vstd::prelude::*;

verus! {

/// Whether a character has the Unicode `White_Space` property: the
/// characters that `char::is_whitespace` accepts.
pub open spec fn white_space(c: char) -> bool {
    ||| '\u{9}' <= c <= '\u{d}'
    ||| c == ' '
    ||| c == '\u{85}'
    ||| c == '\u{a0}'
    ||| c == '\u{1680}'
    ||| '\u{2000}' <= c <= '\u{200a}'
    ||| c == '\u{2028}'
    ||| c == '\u{2029}'
    ||| c == '\u{202f}'
    ||| c == '\u{205f}'
    ||| c == '\u{3000}'
}

/// Whether a character is whitespace, as `char::is_whitespace` decides.
pub fn is_white_space(c: char) -> (r: bool)
    ensures
        r == white_space(c),
{
    ('\u{9}' <= c && c <= '\u{d}') || c == ' ' || c == '\u{85}' || c == '\u{a0}' || c
        == '\u{1680}' || ('\u{2000}' <= c && c <= '\u{200a}') || c == '\u{2028}' || c
        == '\u{2029}' || c == '\u{202f}' || c == '\u{205f}' || c == '\u{3000}'
}

/// The characters of `s`, in order.
pub fn chars_of(s: &str) -> (v: Vec<char>)
    ensures
        v@ == s@,
{
    let mut v: Vec<char> = Vec::new();
    for c in it: s.chars()
        invariant
            v@ == it.seq().take(it.index() as int),
    {
        v.push(c);
    }
    v
}

/// Whether two strings hold the same characters.
pub fn str_eq(a: &str, b: &str) -> (r: bool)
    ensures
        r == (a@ == b@),
{
    let x = chars_of(a);
    let y = chars_of(b);
    if x.len() != y.len() {
        return false;
    }
    let mut i: usize = 0;
    while i < x.len()
        invariant
            x@ == a@,
            y@ == b@,
            x.len() == y.len(),
            i <= x.len(),
            forall|j: int| 0 <= j < i ==> x@[j] == y@[j],
        decreases x.len() - i,
    {
        if x[i] != y[i] {
            return false;
        }
        i = i + 1;
    }
    assert(a@ =~= b@);
    true
}

/// `s` without its leading `White_Space` characters.
pub open spec fn trim_start_spec(s: Seq<char>) -> Seq<char>
    decreases s.len(),
{
    if s.len() > 0 && white_space(s[0]) {
        trim_start_spec(s.drop_first())
    } else {
        s
    }
}

/// `s` without its trailing `White_Space` characters.
pub open spec fn trim_end_spec(s: Seq<char>) -> Seq<char>
    decreases s.len(),
{
    if s.len() > 0 && white_space(s.last()) {
        trim_end_spec(s.drop_last())
    } else {
        s
    }
}

/// `s` without its leading and trailing `White_Space` characters.
pub open spec fn trim_spec(s: Seq<char>) -> Seq<char> {
    trim_end_spec(trim_start_spec(s))
}

proof fn lemma_trim_start_skip(s: Seq<char>, lo: int)
    requires
        0 <= lo <= s.len(),
        forall|j: int| 0 <= j < lo ==> white_space(#[trigger] s[j]),
    ensures
        trim_start_spec(s) == trim_start_spec(s.subrange(lo, s.len() as int)),
    decreases lo,
{
    if lo > 0 {
        assert(s.drop_first() =~= s.subrange(1, s.len() as int));
        lemma_trim_start_skip(s.drop_first(), lo - 1);
        assert(s.drop_first().subrange(lo - 1, s.drop_first().len() as int) =~= s.subrange(
            lo,
            s.len() as int,
        ));
        assert(white_space(s[0]));
    } else {
        assert(s.subrange(0, s.len() as int) =~= s);
    }
}

proof fn lemma_trim_end_drop(s: Seq<char>, hi: int)
    requires
        0 <= hi <= s.len(),
        forall|j: int| hi <= j < s.len() ==> white_space(#[trigger] s[j]),
    ensures
        trim_end_spec(s) == trim_end_spec(s.subrange(0, hi)),
    decreases s.len() - hi,
{
    if hi < s.len() {
        assert(s.drop_last() =~= s.subrange(0, s.len() - 1));
        lemma_trim_end_drop(s.drop_last(), hi);
        assert(s.drop_last().subrange(0, hi) =~= s.subrange(0, hi));
    } else {
        assert(s.subrange(0, hi) =~= s);
    }
}

/// `str::trim_end`: the string without its trailing whitespace.
pub fn trim_end<'a>(s: &'a str) -> (r: &'a str)
    ensures
        r@ == trim_end_spec(s@),
{
    let v = chars_of(s);
    let mut hi: usize = v.len();
    while hi > 0 && is_white_space(v[hi - 1])
        invariant
            v@ == s@,
            hi <= v.len(),
            forall|j: int| hi <= j < v.len() ==> white_space(#[trigger] v@[j]),
        decreases hi,
    {
        hi = hi - 1;
    }
    proof {
        lemma_trim_end_drop(s@, hi as int);
    }
    s.substring_char(0, hi)
}

/// `str::trim`: the string without its leading and trailing whitespace.
pub fn trim<'a>(s: &'a str) -> (r: &'a str)
    ensures
        r@ == trim_spec(s@),
{
    let v = chars_of(s);
    let n = v.len();
    let mut lo: usize = 0;
    while lo < n && is_white_space(v[lo])
        invariant
            v@ == s@,
            n == v.len(),
            lo <= n,
            forall|j: int| 0 <= j < lo ==> white_space(#[trigger] v@[j]),
        decreases n - lo,
    {
        lo = lo + 1;
    }
    let mut hi: usize = n;
    while hi > lo && is_white_space(v[hi - 1])
        invariant
            v@ == s@,
            n == v.len(),
            lo <= hi <= n,
            forall|j: int| hi <= j < n ==> white_space(#[trigger] v@[j]),
        decreases hi,
    {
        hi = hi - 1;
    }
    proof {
        let t = s@.subrange(lo as int, n as int);
        lemma_trim_start_skip(s@, lo as int);
        assert(trim_start_spec(t) == t);
        assert forall|j: int| hi - lo <= j < t.len() implies white_space(#[trigger] t[j]) by {
            assert(t[j] == v@[j + lo]);
        }
        lemma_trim_end_drop(t, hi - lo);
        assert(t.subrange(0, hi - lo) =~= s@.subrange(lo as int, hi as int));
        let u = s@.subrange(lo as int, hi as int);
        if u.len() > 0 {
            assert(u.last() == v@[hi - 1]);
        }
        assert(trim_end_spec(u) == u);
    }
    s.substring_char(lo, hi)
}

/// The views of a sequence of string slices.
pub open spec fn strs_view(v: Seq<&str>) -> Seq<Seq<char>> {
    v.map_values(|x: &str| x@)
}

/// The views of a sequence of strings.
pub open spec fn strings_view(v: Seq<String>) -> Seq<Seq<char>> {
    v.map_values(|x: String| x@)
}

/// The first `n` characters of `s` (all of them when it is shorter).
pub open spec fn take_spec(s: Seq<char>, n: nat) -> Seq<char> {
    if s.len() <= n {
        s
    } else {
        s.subrange(0, n as int)
    }
}

/// `s.chars().take(n)`, collected: the first `n` characters of `s`.
pub fn take_chars<'a>(s: &'a str, n: usize) -> (r: &'a str)
    ensures
        r@ == take_spec(s@, n as nat),
{
    let len = s.unicode_len();
    if len <= n {
        proof {
            assert(s@.subrange(0, len as int) =~= s@);
        }
        s.substring_char(0, len)
    } else {
        s.substring_char(0, n)
    }
}

/// The parts joined with `sep` between each two neighbours, as `join` on a
/// slice of strings gives them.
pub open spec fn join_spec(parts: Seq<Seq<char>>, sep: Seq<char>) -> Seq<char>
    decreases parts.len(),
{
    if parts.len() == 0 {
        Seq::<char>::empty()
    } else if parts.len() == 1 {
        parts[0]
    } else {
        join_spec(parts.drop_last(), sep) + sep + parts.last()
    }
}

/// `[String]::join`: the parts joined with `sep`.
pub fn join(parts: &Vec<String>, sep: &str) -> (r: String)
    ensures
        r@ == join_spec(strings_view(parts@), sep@),
{
    let mut out = String::new();
    let mut i: usize = 0;
    while i < parts.len()
        invariant
            i <= parts.len(),
            out@ == join_spec(strings_view(parts@.subrange(0, i as int)), sep@),
        decreases parts.len() - i,
    {
        proof {
            let pre = strings_view(parts@.subrange(0, (i + 1) as int));
            assert(pre.drop_last() =~= strings_view(parts@.subrange(0, i as int)));
            assert(pre.last() == parts@[i as int]@);
        }
        if i > 0 {
            out.append(sep);
        } else {
            proof {
                assert(out@ =~= Seq::<char>::empty());
            }
        }
        out.append(parts[i].as_str());
        proof {
            if i == 0 {
                assert(out@ =~= parts@[0]@);
            }
        }
        i = i + 1;
    }
    proof {
        assert(parts@.subrange(0, parts@.len() as int) =~= parts@);
    }
    out
}

/// The decimal digit `d` as a character.
pub open spec fn digit_char(d: nat) -> char {
    seq!['0', '1', '2', '3', '4', '5', '6', '7', '8', '9'][d as int]
}

/// The decimal numeral of `n`, without leading zeros, as `Display` writes
/// an unsigned integer.
pub open spec fn decimal_spec(n: nat) -> Seq<char>
    decreases n,
{
    if n < 10 {
        seq![digit_char(n)]
    } else {
        decimal_spec(n / 10).push(digit_char(n % 10))
    }
}

/// The value of a decimal digit character.
pub open spec fn digit_value(c: char) -> int {
    (c as u32) as int - ('0' as u32) as int
}

/// The value of a string of decimal digits, most significant first.
pub open spec fn numeral_value(s: Seq<char>) -> int
    decreases s.len(),
{
    if s.len() == 0 {
        0
    } else {
        numeral_value(s.drop_last()) * 10 + digit_value(s.last())
    }
}

/// The decimal numeral of `n` is made of digits, has the value `n`, and
/// begins with `0` only when it is `0` itself.
pub proof fn lemma_decimal_numeral(n: nat)
    ensures
        decimal_spec(n).len() > 0,
        forall|i: int| 0 <= i < decimal_spec(n).len() ==> '0' <= #[trigger] decimal_spec(n)[i] <= '9',
        numeral_value(decimal_spec(n)) == n,
        decimal_spec(n)[0] == '0' ==> n == 0,
    decreases n,
{
    let digits = seq!['0', '1', '2', '3', '4', '5', '6', '7', '8', '9'];
    assert forall|d: nat| d < 10 implies '0' <= #[trigger] digit_char(d) <= '9' && digit_value(
        digit_char(d),
    ) == d by {
        assert(digit_char(d) == digits[d as int]);
    }
    if n >= 10 {
        lemma_decimal_numeral(n / 10);
        let s = decimal_spec(n);
        let p = decimal_spec(n / 10);
        assert(s.drop_last() =~= p);
        assert(p.len() > 0);
        assert(s[0] == p[0]);
        assert(n / 10 > 0);
        assert((n / 10) * 10 + n % 10 == n) by (nonlinear_arith);
        assert(s.last() == digit_char(n % 10));
        assert(digit_value(digit_char((n % 10) as nat)) == n % 10);
        assert(numeral_value(s) == numeral_value(p) * 10 + digit_value(s.last()));
        assert forall|i: int| 0 <= i < s.len() implies '0' <= #[trigger] s[i] <= '9' by {
            if i < p.len() {
                assert(s[i] == p[i]);
            }
        }
    } else {
        let s = decimal_spec(n);
        assert(s.drop_last() =~= Seq::<char>::empty());
        assert(digit_value(digit_char(n)) == n);
        assert(numeral_value(s) == numeral_value(s.drop_last()) * 10 + digit_value(s.last()));
    }
}

/// The decimal numeral of `n`.
pub fn decimal(n: usize) -> (r: String)
    ensures
        r@ == decimal_spec(n as nat),
    decreases n,
{
    let digits = "0123456789";
    proof {
        reveal_strlit("0123456789");
        assert(digits@ =~= seq!['0', '1', '2', '3', '4', '5', '6', '7', '8', '9']);
    }
    let d = n % 10;
    let last = digits.substring_char(d, d + 1);
    proof {
        assert(last@ =~= seq![digit_char(d as nat)]);
    }
    if n < 10 {
        String::from_str(last)
    } else {
        let mut out = decimal(n / 10);
        out.append(last);
        out
    }
}

/// Whether `i` is the position of the first `c` in `s`.
pub open spec fn is_first_index(s: Seq<char>, c: char, i: int) -> bool {
    0 <= i < s.len() && s[i] == c && forall|j: int| 0 <= j < i ==> s[j] != c
}

/// `s` cut at its first `c`, as `splitn(2, c)` cuts it: the part before,
/// and the part after when `c` occurs.
pub open spec fn split_once_spec(s: Seq<char>, c: char) -> (Seq<char>, Option<Seq<char>>) {
    if s.contains(c) {
        let i = choose|i: int| is_first_index(s, c, i);
        (s.subrange(0, i), Some(s.subrange(i + 1, s.len() as int)))
    } else {
        (s, None)
    }
}

/// `str::splitn(2, c)`: the part of `s` before its first `c`, and the part
/// after it when there is one.
pub fn split_once<'a>(s: &'a str, c: char) -> (r: (&'a str, Option<&'a str>))
    ensures
        (r.0@, match r.1 {
            Some(t) => Some(t@),
            None => None,
        }) == split_once_spec(s@, c),
{
    let v = chars_of(s);
    let n = v.len();
    let mut i: usize = 0;
    while i < n
        invariant
            v@ == s@,
            n == v.len(),
            i <= n,
            forall|j: int| 0 <= j < i ==> s@[j] != c,
        decreases n - i,
    {
        if v[i] == c {
            proof {
                assert(is_first_index(s@, c, i as int));
                assert(s@.contains(c));
                let k = choose|k: int| is_first_index(s@, c, k);
                assert(k == i) by {
                    if k < i {
                        assert(s@[k] != c);
                    } else if k > i {
                        assert(s@[i as int] != c);
                    }
                }
            }
            return (s.substring_char(0, i), Some(s.substring_char(i + 1, n)));
        }
        i = i + 1;
    }
    proof {
        assert(!s@.contains(c));
        assert(s@.subrange(0, n as int) =~= s@);
    }
    (s.substring_char(0, n), None)
}

proof fn lemma_trim_start_is_suffix(s: Seq<char>)
    ensures
        trim_start_spec(s).len() <= s.len(),
        trim_start_spec(s) == s.subrange(s.len() - trim_start_spec(s).len(), s.len() as int),
        trim_start_spec(s).len() > 0 ==> !white_space(trim_start_spec(s)[0]),
    decreases s.len(),
{
    if s.len() > 0 && white_space(s[0]) {
        lemma_trim_start_is_suffix(s.drop_first());
        let t = trim_start_spec(s);
        assert(t =~= s.subrange(s.len() - t.len(), s.len() as int));
    } else {
        assert(s =~= s.subrange(0, s.len() as int));
    }
}

proof fn lemma_trim_end_is_prefix(s: Seq<char>)
    ensures
        trim_end_spec(s).len() <= s.len(),
        trim_end_spec(s) == s.subrange(0, trim_end_spec(s).len() as int),
        trim_end_spec(s).len() > 0 ==> !white_space(trim_end_spec(s).last()),
    decreases s.len(),
{
    if s.len() > 0 && white_space(s.last()) {
        lemma_trim_end_is_prefix(s.drop_last());
        let t = trim_end_spec(s);
        assert(t =~= s.subrange(0, t.len() as int));
    } else {
        assert(s =~= s.subrange(0, s.len() as int));
    }
}

/// A trimmed string neither begins nor ends with whitespace.
pub proof fn lemma_trim_ends(s: Seq<char>)
    ensures
        trim_spec(s).len() > 0 ==> !white_space(trim_spec(s)[0]) && !white_space(
            trim_spec(s).last(),
        ),
{
    let t = trim_start_spec(s);
    lemma_trim_start_is_suffix(s);
    lemma_trim_end_is_prefix(t);
    let u = trim_end_spec(t);
    if u.len() > 0 {
        assert(u[0] == t[0]);
    }
}

} // verus!
