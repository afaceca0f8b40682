//! Scanning text by characters: whitespace, trimming, splitting and
//! reading unsigned decimals, as `str` does them.
use vstd::prelude::*;
use vstd::string::StrSliceExecFns;

verus! {

/// `char::is_whitespace`: the Unicode White_Space characters.
pub open spec fn is_ws(c: char) -> bool {
    let u = c as u32;
    (9 <= u <= 13) || u == 32 || u == 0x85 || u == 0xA0 || u == 0x1680 || (0x2000 <= u <= 0x200A) || u == 0x2028
        || u == 0x2029 || u == 0x202F || u == 0x205F || u == 0x3000
}

pub fn char_is_ws(c: char) -> (b: bool)
    ensures
        b == is_ws(c),
{
    let u = c as u32;
    (9 <= u && u <= 13) || u == 32 || u == 0x85 || u == 0xA0 || u == 0x1680 || (0x2000 <= u && u <= 0x200A)
        || u == 0x2028 || u == 0x2029 || u == 0x202F || u == 0x205F || u == 0x3000
}

/// The characters of `s`.
pub fn chars_of(s: &str) -> (v: Vec<char>)
    ensures
        v@ == s@,
{
    let mut v: Vec<char> = Vec::new();
    for c in it: s.chars()
        invariant
            v@ == it.seq().take(it.index() as int),
    {
        v.push(c);
    }
    assert(v@ =~= s@);
    v
}

/// `s` without its leading whitespace.
pub open spec fn trim_start(s: Seq<char>) -> Seq<char>
    decreases s.len(),
{
    if s.len() > 0 && is_ws(s[0]) {
        trim_start(s.drop_first())
    } else {
        s
    }
}

/// `s` without its trailing whitespace.
pub open spec fn trim_end(s: Seq<char>) -> Seq<char>
    decreases s.len(),
{
    if s.len() > 0 && is_ws(s.last()) {
        trim_end(s.drop_last())
    } else {
        s
    }
}

/// `str::trim`.
pub open spec fn trim(s: Seq<char>) -> Seq<char> {
    trim_end(trim_start(s))
}

/// The first index from `i` on that holds `c`, or the length.
pub open spec fn find_char(s: Seq<char>, c: char, i: int) -> int
    decreases s.len() - i,
{
    if i < 0 || i >= s.len() {
        s.len() as int
    } else if s[i] == c {
        i
    } else {
        find_char(s, c, i + 1)
    }
}

/// The first index from `i` on that holds whitespace, or the length.
pub open spec fn find_ws(s: Seq<char>, i: int) -> int
    decreases s.len() - i,
{
    if i < 0 || i >= s.len() {
        s.len() as int
    } else if is_ws(s[i]) {
        i
    } else {
        find_ws(s, i + 1)
    }
}

pub proof fn lemma_find_char(s: Seq<char>, c: char, i: int)
    requires
        0 <= i <= s.len(),
    ensures
        i <= find_char(s, c, i) <= s.len(),
        forall|j: int| i <= j < find_char(s, c, i) ==> s[j] != c,
        find_char(s, c, i) < s.len() ==> s[find_char(s, c, i)] == c,
    decreases s.len() - i,
{
    if i < s.len() && s[i] != c {
        lemma_find_char(s, c, i + 1);
    }
}

pub proof fn lemma_find_ws(s: Seq<char>, i: int)
    requires
        0 <= i <= s.len(),
    ensures
        i <= find_ws(s, i) <= s.len(),
        forall|j: int| i <= j < find_ws(s, i) ==> !is_ws(s[j]),
        find_ws(s, i) < s.len() ==> is_ws(s[find_ws(s, i)]),
    decreases s.len() - i,
{
    if i < s.len() && !is_ws(s[i]) {
        lemma_find_ws(s, i + 1);
    }
}

pub proof fn lemma_trim_start_len(s: Seq<char>)
    ensures
        trim_start(s).len() <= s.len(),
        trim_start(s).len() > 0 ==> !is_ws(trim_start(s)[0]),
        s.len() > 0 && !is_ws(s[0]) ==> trim_start(s) == s,
    decreases s.len(),
{
    if s.len() > 0 && is_ws(s[0]) {
        lemma_trim_start_len(s.drop_first());
    }
}

/// `str::split_whitespace`: the maximal runs of non-whitespace characters.
pub open spec fn words(s: Seq<char>) -> Seq<Seq<char>>
    decreases s.len(),
{
    let t = trim_start(s);
    if t.len() == 0 {
        Seq::empty()
    } else {
        let k = find_ws(t, 0);
        proof {
            lemma_trim_start_len(s);
            lemma_find_ws(t, 0);
        }
        seq![t.subrange(0, k)] + words(t.subrange(k, t.len() as int))
    }
}

/// `str::split` on one character: every piece between occurrences,
/// including empty ones.
pub open spec fn split_on(s: Seq<char>, c: char) -> Seq<Seq<char>>
    decreases s.len(),
{
    let k = find_char(s, c, 0);
    if k >= s.len() {
        seq![s]
    } else {
        proof {
            lemma_find_char(s, c, 0);
        }
        seq![s.subrange(0, k)] + split_on(s.subrange(k + 1, s.len() as int), c)
    }
}

/// Whether `s` holds `c`.
pub open spec fn has_char(s: Seq<char>, c: char) -> bool {
    exists|i: int| 0 <= i < s.len() && s[i] == c
}

/// The value of a string of decimal digits.
pub open spec fn digits_value(d: Seq<char>) -> nat
    decreases d.len(),
{
    if d.len() == 0 {
        0
    } else {
        digits_value(d.drop_last()) * 10 + ((d.last() as u32) - 48) as nat
    }
}

pub open spec fn all_digits(d: Seq<char>) -> bool {
    forall|i: int| 0 <= i < d.len() ==> '0' <= #[trigger] d[i] <= '9'
}

/// `str::parse` for an unsigned integer type whose largest value is
/// `max`: an optional `+`, then at least one decimal digit, the value at
/// most `max`.
pub open spec fn parse_uint(s: Seq<char>, max: nat) -> Option<nat> {
    let d = if s.len() > 0 && s[0] == '+' { s.drop_first() } else { s };
    if d.len() > 0 && all_digits(d) && digits_value(d) <= max {
        Some(digits_value(d))
    } else {
        None
    }
}

proof fn lemma_digits_value_prefix(d: Seq<char>, k: int)
    requires
        0 <= k <= d.len(),
        all_digits(d),
    ensures
        digits_value(d.take(k)) <= digits_value(d),
    decreases d.len() - k,
{
    if k < d.len() {
        lemma_digits_value_prefix(d, k + 1);
        assert(d.take(k + 1).drop_last() =~= d.take(k));
        assert(d.take(k + 1).last() == d[k]);
        assert('0' <= d[k] <= '9');
        assert(digits_value(d.take(k + 1)) == digits_value(d.take(k)) * 10 + ((d[k] as u32) - 48) as nat);
    } else {
        assert(d.take(k) =~= d);
    }
}

/// Trims whitespace off both ends of `cs[a..b]`, giving the bounds of what
/// is left.
pub fn trim_range(cs: &[char], a: usize, b: usize) -> (r: (usize, usize))
    requires
        a <= b <= cs@.len(),
    ensures
        a <= r.0 <= r.1 <= b,
        cs@.subrange(r.0 as int, r.1 as int) == trim(cs@.subrange(a as int, b as int)),
{
    let mut i = a;
    while i < b && char_is_ws(cs[i])
        invariant
            a <= i <= b <= cs@.len(),
            trim_start(cs@.subrange(a as int, b as int)) == trim_start(cs@.subrange(i as int, b as int)),
        decreases b - i,
    {
        assert(cs@.subrange(i as int, b as int).drop_first() =~= cs@.subrange(i + 1, b as int));
        i = i + 1;
    }
    proof {
        let s = cs@.subrange(i as int, b as int);
        if s.len() > 0 {
            assert(s[0] == cs@[i as int]);
        }
    }
    let mut j = b;
    while j > i && char_is_ws(cs[j - 1])
        invariant
            a <= i <= j <= b <= cs@.len(),
            trim_start(cs@.subrange(i as int, b as int)) == cs@.subrange(i as int, b as int),
            trim(cs@.subrange(a as int, b as int)) == trim_end(cs@.subrange(i as int, j as int)),
        decreases j - i,
    {
        assert(cs@.subrange(i as int, j as int).drop_last() =~= cs@.subrange(i as int, j - 1));
        j = j - 1;
    }
    proof {
        let s = cs@.subrange(i as int, j as int);
        if s.len() > 0 {
            assert(s.last() == cs@[j - 1]);
        }
    }
    (i, j)
}

/// The first index in `cs[a..b]` that holds `c`, or `b`.
pub fn find_in(cs: &[char], a: usize, b: usize, c: char) -> (k: usize)
    requires
        a <= b <= cs@.len(),
    ensures
        a <= k <= b,
        forall|j: int| a <= j < k ==> cs@[j] != c,
        k < b ==> cs@[k as int] == c,
        k - a == find_char(cs@.subrange(a as int, b as int), c, 0),
{
    let ghost s = cs@.subrange(a as int, b as int);
    let mut i = a;
    while i < b && cs[i] != c
        invariant
            a <= i <= b <= cs@.len(),
            s == cs@.subrange(a as int, b as int),
            forall|j: int| a <= j < i ==> cs@[j] != c,
            find_char(s, c, 0) == find_char(s, c, i - a),
        decreases b - i,
    {
        assert(s[i - a] == cs@[i as int]);
        i = i + 1;
    }
    proof {
        if i < b {
            assert(s[i - a] == cs@[i as int]);
        }
    }
    i
}

/// The first whitespace index in `cs[a..b]`, or `b`.
pub fn find_ws_in(cs: &[char], a: usize, b: usize) -> (k: usize)
    requires
        a <= b <= cs@.len(),
    ensures
        a <= k <= b,
        k - a == find_ws(cs@.subrange(a as int, b as int), 0),
{
    let ghost s = cs@.subrange(a as int, b as int);
    let mut i = a;
    while i < b && !char_is_ws(cs[i])
        invariant
            a <= i <= b <= cs@.len(),
            s == cs@.subrange(a as int, b as int),
            find_ws(s, 0) == find_ws(s, i - a),
        decreases b - i,
    {
        assert(s[i - a] == cs@[i as int]);
        i = i + 1;
    }
    proof {
        if i < b {
            assert(s[i - a] == cs@[i as int]);
        }
    }
    i
}

/// The pieces of a range as bounds into `cs`.
pub open spec fn ranges_text(cs: Seq<char>, r: Seq<(usize, usize)>) -> Seq<Seq<char>> {
    r.map_values(|p: (usize, usize)| cs.subrange(p.0 as int, p.1 as int))
}

pub open spec fn ranges_within(r: Seq<(usize, usize)>, a: int, b: int) -> bool {
    forall|i: int| 0 <= i < r.len() ==> a <= (#[trigger] r[i]).0 <= r[i].1 <= b
}

/// The words of `cs[a..b]`, as bounds into `cs`.
pub fn words_in(cs: &[char], a: usize, b: usize) -> (r: Vec<(usize, usize)>)
    requires
        a <= b <= cs@.len(),
    ensures
        ranges_within(r@, a as int, b as int),
        ranges_text(cs@, r@) == words(cs@.subrange(a as int, b as int)),
{
    let mut r: Vec<(usize, usize)> = Vec::new();
    let mut i = a;
    while i < b
        invariant
            a <= i <= b <= cs@.len(),
            ranges_within(r@, a as int, b as int),
            words(cs@.subrange(a as int, b as int)) == ranges_text(cs@, r@) + words(cs@.subrange(i as int, b as int)),
        decreases b - i,
    {
        let ghost s = cs@.subrange(i as int, b as int);
        let mut j = i;
        while j < b && char_is_ws(cs[j])
            invariant
                i <= j <= b <= cs@.len(),
                s == cs@.subrange(i as int, b as int),
                trim_start(s) == trim_start(cs@.subrange(j as int, b as int)),
            decreases b - j,
        {
            assert(cs@.subrange(j as int, b as int).drop_first() =~= cs@.subrange(j + 1, b as int));
            j = j + 1;
        }
        proof {
            let t = cs@.subrange(j as int, b as int);
            if t.len() > 0 {
                assert(t[0] == cs@[j as int]);
            }
        }
        if j == b {
            proof {
                assert(cs@.subrange(j as int, b as int) =~= Seq::<char>::empty());
                assert(words(s) =~= Seq::<Seq<char>>::empty());
                assert(ranges_text(cs@, r@) + words(s) =~= ranges_text(cs@, r@));
                assert(words(cs@.subrange(b as int, b as int)) =~= Seq::<Seq<char>>::empty());
                assert(ranges_text(cs@, r@) + Seq::<Seq<char>>::empty() =~= ranges_text(cs@, r@));
            }
            i = b;
        } else {
            let k = find_ws_in(cs, j, b);
            let ghost t = cs@.subrange(j as int, b as int);
            proof {
                lemma_find_ws(t, 0);
                assert(t.subrange(0, k - j) =~= cs@.subrange(j as int, k as int));
                assert(t.subrange(k - j, t.len() as int) =~= cs@.subrange(k as int, b as int));
                assert(words(s) == seq![t.subrange(0, k - j)] + words(t.subrange(k - j, t.len() as int)));
            }
            let ghost before = r@;
            r.push((j, k));
            proof {
                assert(ranges_text(cs@, r@) =~= ranges_text(cs@, before).push(cs@.subrange(j as int, k as int)));
                assert(ranges_text(cs@, before) + (seq![cs@.subrange(j as int, k as int)] + words(
                    cs@.subrange(k as int, b as int),
                )) =~= ranges_text(cs@, r@) + words(cs@.subrange(k as int, b as int)));
            }
            i = k;
        }
    }
    proof {
        assert(cs@.subrange(i as int, b as int) =~= Seq::<char>::empty());
        assert(words(cs@.subrange(i as int, b as int)) =~= Seq::<Seq<char>>::empty());
        assert(ranges_text(cs@, r@) + Seq::<Seq<char>>::empty() =~= ranges_text(cs@, r@));
    }
    r
}

/// The pieces of `cs[a..b]` between occurrences of `c`, as bounds into
/// `cs`.
pub fn split_in(cs: &[char], a: usize, b: usize, c: char) -> (r: Vec<(usize, usize)>)
    requires
        a <= b <= cs@.len(),
    ensures
        r@.len() >= 1,
        ranges_within(r@, a as int, b as int),
        ranges_text(cs@, r@) == split_on(cs@.subrange(a as int, b as int), c),
{
    let mut r: Vec<(usize, usize)> = Vec::new();
    let mut i = a;
    loop
        invariant
            a <= i <= b <= cs@.len(),
            ranges_within(r@, a as int, b as int),
            split_on(cs@.subrange(a as int, b as int), c) == ranges_text(cs@, r@) + split_on(
                cs@.subrange(i as int, b as int),
                c,
            ),
        decreases b - i,
    {
        let k = find_in(cs, i, b, c);
        let ghost s = cs@.subrange(i as int, b as int);
        let ghost before = r@;
        r.push((i, k));
        if k == b {
            proof {
                assert(s.subrange(0, k - i) =~= s);
                assert(split_on(s, c) == seq![s]);
                assert(ranges_text(cs@, r@) =~= ranges_text(cs@, before).push(s));
                assert(ranges_text(cs@, before) + seq![s] =~= ranges_text(cs@, r@));
            }
            return r;
        }
        proof {
            assert(s.subrange(0, k - i) =~= cs@.subrange(i as int, k as int));
            assert(s.subrange(k - i + 1, s.len() as int) =~= cs@.subrange(k + 1, b as int));
            assert(ranges_text(cs@, r@) =~= ranges_text(cs@, before).push(cs@.subrange(i as int, k as int)));
            assert(ranges_text(cs@, before) + (seq![cs@.subrange(i as int, k as int)] + split_on(
                cs@.subrange(k + 1, b as int),
                c,
            )) =~= ranges_text(cs@, r@) + split_on(cs@.subrange(k + 1, b as int), c));
        }
        i = k + 1;
    }
}

/// Reads `cs[a..b]` as an unsigned decimal at most `max`, as `str::parse`
/// does.
pub fn parse_uint_in(cs: &[char], a: usize, b: usize, max: u64) -> (r: Option<u64>)
    requires
        a <= b <= cs@.len(),
    ensures
        match parse_uint(cs@.subrange(a as int, b as int), max as nat) {
            Some(v) => r == Some(v as u64),
            None => r is None,
        },
{
    let ghost s = cs@.subrange(a as int, b as int);
    let start = if a < b && cs[a] == '+' { a + 1 } else { a };
    let ghost d = cs@.subrange(start as int, b as int);
    assert(d =~= (if s.len() > 0 && s[0] == '+' { s.drop_first() } else { s }));
    if start == b {
        return None;
    }
    let mut v: u64 = 0;
    let mut i = start;
    while i < b
        invariant
            start <= i <= b <= cs@.len(),
            a <= start < b,
            s == cs@.subrange(a as int, b as int),
            d == cs@.subrange(start as int, b as int),
            d == (if s.len() > 0 && s[0] == '+' { s.drop_first() } else { s }),
            v <= max,
            all_digits(d.take(i - start)),
            v == digits_value(d.take(i - start)),
        decreases b - i,
    {
        let ch = cs[i];
        assert(d[i - start] == ch);
        if !('0' <= ch && ch <= '9') {
            assert(!all_digits(d));
            return None;
        }
        let digit = (ch as u32 - 48) as u64;
        assert(d.take(i - start + 1).drop_last() =~= d.take(i - start));
        assert(d.take(i - start + 1).last() == ch);
        if digit > max || v > (max - digit) / 10 {
            proof {
                assert(all_digits(d.take(i - start + 1)));
                assert(digits_value(d.take(i - start + 1)) == v * 10 + digit);
                assert(v * 10 + digit > max) by (nonlinear_arith)
                    requires
                        digit > max || v > (max - digit) / 10,
                        digit <= 9,
                ;
                if all_digits(d) {
                    lemma_digits_value_prefix(d, i - start + 1);
                }
            }
            return None;
        }
        assert(v * 10 + digit <= max) by (nonlinear_arith)
            requires
                v <= (max - digit) / 10,
                digit <= max,
        ;
        v = v * 10 + digit;
        i = i + 1;
    }
    assert(d.take(d.len() as int) =~= d);
    Some(v)
}

/// Whether `cs[a..b]` is the text `lit`.
pub fn range_is(cs: &[char], a: usize, b: usize, lit: &str) -> (r: bool)
    requires
        a <= b <= cs@.len(),
    ensures
        r == (cs@.subrange(a as int, b as int) == lit@),
{
    let n = lit.unicode_len();
    if b - a != n {
        return false;
    }
    let mut i: usize = 0;
    while i < n
        invariant
            i <= n,
            n == lit@.len(),
            b - a == n,
            a <= b <= cs@.len(),
            forall|j: int| 0 <= j < i ==> cs@[a + j] == lit@[j],
        decreases n - i,
    {
        if cs[a + i] != lit.get_char(i) {
            assert(cs@.subrange(a as int, b as int)[i as int] != lit@[i as int]);
            return false;
        }
        i = i + 1;
    }
    assert(cs@.subrange(a as int, b as int) =~= lit@);
    true
}

/// Whether `cs[a..b]` holds `c`.
pub fn range_has(cs: &[char], a: usize, b: usize, c: char) -> (r: bool)
    requires
        a <= b <= cs@.len(),
    ensures
        r == has_char(cs@.subrange(a as int, b as int), c),
{
    let k = find_in(cs, a, b, c);
    proof {
        let s = cs@.subrange(a as int, b as int);
        if k < b {
            assert(s[k - a] == c);
        } else {
            assert forall|j: int| 0 <= j < s.len() implies s[j] != c by {
                assert(s[j] == cs@[a + j]);
            }
        }
    }
    k < b
}

/// A fresh `String` holding `s[a..b]`.
pub fn substring(s: &str, a: usize, b: usize) -> (r: String)
    requires
        a <= b <= s@.len(),
    ensures
        r@ == s@.subrange(a as int, b as int),
{
    crate::text::owned(s.substring_char(a, b))
}

} // verus!
