//! Character-level string helpers with specifications over `Seq<char>`.

use vstd::prelude::*;
use vstd::string::*;

verus! {

/// Lexicographic order on character sequences (the order of `str`'s `Ord`).
pub open spec fn seq_lt(a: Seq<char>, b: Seq<char>) -> bool
    decreases a.len(),
{
    if b.len() == 0 {
        false
    } else if a.len() == 0 {
        true
    } else if a[0] != b[0] {
        (a[0] as u32) < (b[0] as u32)
    } else {
        seq_lt(a.drop_first(), b.drop_first())
    }
}

/// Appends one character by `String::push`. Trusted: the contract claims
/// that afterwards the string holds its old characters followed by `c`.
#[verifier::external_body]
pub(crate) fn push_char(s: &mut String, c: char)
    ensures
        final(s)@ == old(s)@.push(c),
{
    s.push(c)
}

/// Character-wise equality of two string slices.
pub fn str_eq(a: &str, b: &str) -> (r: bool)
    ensures
        r == (a@ == b@),
{
    let n = a.unicode_len();
    let m = b.unicode_len();
    if n != m {
        return false;
    }
    let mut i: usize = 0;
    while i < n
        invariant
            n == a@.len(),
            m == b@.len(),
            n == m,
            i <= n,
            forall|j: int| 0 <= j < i ==> a@[j] == b@[j],
        decreases n - i,
    {
        if a.get_char(i) != b.get_char(i) {
            return false;
        }
        i = i + 1;
    }
    assert(a@ =~= b@);
    true
}

/// Strict lexicographic comparison of two string slices.
pub fn str_lt(a: &str, b: &str) -> (r: bool)
    ensures
        r == seq_lt(a@, b@),
{
    let n = a.unicode_len();
    let m = b.unicode_len();
    let mut i: usize = 0;
    assert(a@.skip(0) =~= a@);
    assert(b@.skip(0) =~= b@);
    while i < n && i < m
        invariant
            n == a@.len(),
            m == b@.len(),
            i <= n,
            i <= m,
            seq_lt(a@, b@) == seq_lt(a@.skip(i as int), b@.skip(i as int)),
        decreases n - i,
    {
        let ca = a.get_char(i);
        let cb = b.get_char(i);
        if ca != cb {
            assert(a@.skip(i as int)[0] == ca);
            assert(b@.skip(i as int)[0] == cb);
            return (ca as u32) < (cb as u32);
        }
        assert(a@.skip(i as int).drop_first() =~= a@.skip(i + 1));
        assert(b@.skip(i as int).drop_first() =~= b@.skip(i + 1));
        i = i + 1;
    }
    if i < m {
        assert(a@.skip(i as int).len() == 0);
        true
    } else {
        assert(b@.skip(i as int).len() == 0);
        false
    }
}

/// A copy of a list of strings.
pub fn copy_strings(v: &Vec<String>) -> (r: Vec<String>)
    ensures
        r.deep_view() == v.deep_view(),
{
    let mut r: Vec<String> = Vec::new();
    let mut i: usize = 0;
    while i < v.len()
        invariant
            i <= v@.len(),
            r.deep_view() == v.deep_view().take(i as int),
        decreases v.len() - i,
    {
        let c = v[i].clone();
        let ghost before = r.deep_view();
        r.push(c);
        assert(r.deep_view() =~= before.push(c@));
        assert(r.deep_view() =~= v.deep_view().take(i + 1));
        i = i + 1;
    }
    assert(v.deep_view().take(i as int) =~= v.deep_view());
    r
}

/// A copy of an optional string.
pub fn copy_opt_string(v: &Option<String>) -> (r: Option<String>)
    ensures
        r.deep_view() == v.deep_view(),
{
    match v {
        Some(s) => Some(s.clone()),
        None => None,
    }
}

/// Whether `v` holds a string equal to `s`.
pub fn strings_contain(v: &Vec<String>, s: &str) -> (r: bool)
    ensures
        r == v.deep_view().contains(s@),
{
    let mut i: usize = 0;
    while i < v.len()
        invariant
            i <= v@.len(),
            forall|j: int| 0 <= j < i ==> v.deep_view()[j] != s@,
        decreases v.len() - i,
    {
        if str_eq(v[i].as_str(), s) {
            assert(v.deep_view()[i as int] == s@);
            return true;
        }
        i = i + 1;
    }
    false
}

/// The character of decimal digit `d`.
pub open spec fn digit_char(d: nat) -> char {
    (48 + d) as char
}

/// Decimal digits of `n`, most significant first, without leading zeros.
pub open spec fn decimal(n: nat) -> Seq<char>
    decreases n,
{
    if n < 10 {
        seq![digit_char(n)]
    } else {
        decimal(n / 10).push(digit_char(n % 10))
    }
}

/// Decimal text of a signed integer.
pub open spec fn signed_decimal(n: int) -> Seq<char> {
    if n < 0 {
        seq!['-'] + decimal((-n) as nat)
    } else {
        decimal(n as nat)
    }
}

/// Decimal digits of `n` left-padded with zeros to at least `width` digits.
pub open spec fn zero_padded(n: nat, width: nat) -> Seq<char> {
    let pad: nat = if width > decimal(n).len() { (width - decimal(n).len()) as nat } else { 0 };
    Seq::new(pad, |i: int| '0') + decimal(n)
}

fn digit(d: u64) -> (c: char)
    requires
        d < 10,
    ensures
        c == digit_char(d as nat),
{
    ((48 + d) as u8) as char
}

/// Appends the decimal digits of `n`.
pub fn push_decimal(s: &mut String, n: u64)
    ensures
        final(s)@ == old(s)@ + decimal(n as nat),
    decreases n,
{
    if n >= 10 {
        push_decimal(s, n / 10);
    }
    push_char(s, digit(n % 10));
    proof {
        if n >= 10 {
            assert(decimal(n as nat) == decimal((n / 10) as nat).push(digit_char((n % 10) as nat)));
        }
    }
    assert(s@ =~= old(s)@ + decimal(n as nat));
}

/// Appends the decimal text of `n` (with a leading `-` when negative).
pub fn push_signed_decimal(s: &mut String, n: i64)
    ensures
        final(s)@ == old(s)@ + signed_decimal(n as int),
{
    if n < 0 {
        push_char(s, '-');
        let m: i128 = -(n as i128);
        push_decimal(s, m as u64);
        assert(s@ =~= old(s)@ + signed_decimal(n as int));
    } else {
        push_decimal(s, n as u64);
    }
}

/// Number of decimal digits of `n`.
pub proof fn lemma_decimal_len(n: nat)
    ensures
        decimal(n).len() >= 1,
        n < 10 ==> decimal(n).len() == 1,
        10 <= n < 100 ==> decimal(n).len() == 2,
        100 <= n < 1000 ==> decimal(n).len() == 3,
        1000 <= n < 10000 ==> decimal(n).len() == 4,
    decreases n,
{
    if n >= 10 {
        lemma_decimal_len(n / 10);
    }
}

/// The digit count of `n` is at most `max(n, 1)`.
pub proof fn lemma_decimal_len_le(n: nat)
    ensures
        decimal(n).len() <= if n == 0 { 1 } else { n },
    decreases n,
{
    if n >= 10 {
        lemma_decimal_len_le(n / 10);
    }
}

/// Appends `n` as at least `width` digits, left-padded with zeros.
pub fn push_zero_padded(s: &mut String, n: u64, width: u64)
    ensures
        final(s)@ == old(s)@ + zero_padded(n as nat, width as nat),
{
    proof {
        lemma_decimal_len(n as nat);
        lemma_decimal_len_le(n as nat);
    }
    let mut digits: u64 = 1;
    let mut m: u64 = n;
    while m >= 10
        invariant
            digits >= 1,
            decimal(n as nat).len() <= if n == 0 { 1 } else { n as int },
            decimal(n as nat).len() == digits - 1 + decimal(m as nat).len(),
        decreases m,
    {
        assert(decimal(m as nat) == decimal((m / 10) as nat).push(digit_char((m % 10) as nat)));
        proof {
            lemma_decimal_len((m / 10) as nat);
        }
        m = m / 10;
        digits = digits + 1;
    }
    assert(decimal(m as nat).len() == 1);
    let ghost start = s@;
    let mut pad: u64 = 0;
    let pad_count: u64 = if width > digits { width - digits } else { 0 };
    while pad < pad_count
        invariant
            pad <= pad_count,
            s@ == start + Seq::new(pad as nat, |i: int| '0'),
        decreases pad_count - pad,
    {
        push_char(s, '0');
        assert(s@ =~= start + Seq::new((pad + 1) as nat, |i: int| '0'));
        pad = pad + 1;
    }
    assert(digits == decimal(n as nat).len());
    push_decimal(s, n);
    assert(s@ =~= start + zero_padded(n as nat, width as nat));
}

/// Lexicographic order is transitive.
pub proof fn lemma_seq_lt_transitive(a: Seq<char>, b: Seq<char>, c: Seq<char>)
    requires
        seq_lt(a, b),
        seq_lt(b, c),
    ensures
        seq_lt(a, c),
    decreases a.len(),
{
    if a.len() > 0 && b.len() > 0 && c.len() > 0 && a[0] == b[0] && b[0] == c[0] {
        lemma_seq_lt_transitive(a.drop_first(), b.drop_first(), c.drop_first());
    }
}

/// No sequence is below itself.
pub proof fn lemma_seq_lt_irreflexive(a: Seq<char>)
    ensures
        !seq_lt(a, a),
    decreases a.len(),
{
    if a.len() > 0 {
        lemma_seq_lt_irreflexive(a.drop_first());
    }
}

/// Whether a sequence of strings is in non-decreasing lexicographic order.
pub open spec fn strings_sorted(s: Seq<Seq<char>>) -> bool {
    forall|i: int, j: int| 0 <= i < j < s.len() ==> !seq_lt(#[trigger] s[j], #[trigger] s[i])
}

/// Where `x` goes into `s`: before the first element above it.
pub open spec fn insertion_point(s: Seq<Seq<char>>, x: Seq<char>) -> int
    decreases s.len(),
{
    if s.len() == 0 {
        0
    } else if seq_lt(x, s[0]) {
        0
    } else {
        1 + insertion_point(s.drop_first(), x)
    }
}

/// The strings of `s` sorted by inserting each, in turn, before the first
/// one above it; equal strings keep their order.
pub open spec fn sorted_strings(s: Seq<Seq<char>>) -> Seq<Seq<char>>
    decreases s.len(),
{
    if s.len() == 0 {
        s
    } else {
        let r = sorted_strings(s.drop_last());
        r.insert(insertion_point(r, s.last()), s.last())
    }
}

proof fn lemma_insertion_point(s: Seq<Seq<char>>, x: Seq<char>, p: int)
    requires
        0 <= p <= s.len(),
        forall|q: int| 0 <= q < p ==> !seq_lt(x, #[trigger] s[q]),
        p < s.len() ==> seq_lt(x, s[p]),
    ensures
        insertion_point(s, x) == p,
    decreases s.len(),
{
    if s.len() > 0 && p > 0 {
        assert(!seq_lt(x, s[0]));
        assert forall|q: int| 0 <= q < p - 1 implies !seq_lt(x, #[trigger] s.drop_first()[q]) by {
            assert(s.drop_first()[q] == s[q + 1]);
        }
        lemma_insertion_point(s.drop_first(), x, p - 1);
    }
}

/// The strings of `v` in non-decreasing lexicographic order (`slice::sort`).
pub fn sort_strings(v: Vec<String>) -> (r: Vec<String>)
    ensures
        strings_sorted(r.deep_view()),
        r.deep_view().to_multiset() == v.deep_view().to_multiset(),
        r.deep_view() == sorted_strings(v.deep_view()),
{
    broadcast use vstd::seq_lib::group_to_multiset_ensures;

    let ghost src = v.deep_view();
    let mut r: Vec<String> = Vec::new();
    let mut i: usize = 0;
    assert(src.take(0) =~= Seq::<Seq<char>>::empty());
    while i < v.len()
        invariant
            src == v.deep_view(),
            i <= src.len(),
            strings_sorted(r.deep_view()),
            r.deep_view().to_multiset() == src.take(i as int).to_multiset(),
            r.deep_view() == sorted_strings(src.take(i as int)),
        decreases v.len() - i,
    {
        let x = v[i].clone();
        let ghost rv = r.deep_view();
        let mut p: usize = 0;
        let mut done = false;
        while !done && p < r.len()
            invariant
                rv == r.deep_view(),
                p <= rv.len(),
                done ==> p < rv.len() && seq_lt(x@, rv[p as int]),
                forall|q: int| 0 <= q < p ==> !seq_lt(x@, #[trigger] rv[q]),
            decreases r.len() - p, if done { 0int } else { 1int },
        {
            if str_lt(x.as_str(), r[p].as_str()) {
                done = true;
            } else {
                p = p + 1;
            }
        }
        proof {
            assert forall|j: int| p <= j < rv.len() implies !seq_lt(#[trigger] rv[j], x@) by {
                assert(done);
                if seq_lt(rv[j], x@) {
                    if j > p as int {
                        assert(!seq_lt(rv[j], rv[p as int]));
                        lemma_seq_lt_transitive(rv[j], x@, rv[p as int]);
                    } else {
                        lemma_seq_lt_transitive(x@, rv[p as int], x@);
                        lemma_seq_lt_irreflexive(x@);
                    }
                }
            }
            assert(x@ == src[i as int]);
            lemma_insertion_point(rv, x@, p as int);
            assert(src.take(i + 1).drop_last() =~= src.take(i as int));
        }
        r.insert(p, x);
        assert(r.deep_view() =~= rv.insert(p as int, x@));
        assert(src.take(i + 1) =~= src.take(i as int).push(src[i as int]));
        proof {
            vstd::seq_lib::to_multiset_insert(rv, p as int, x@);
            vstd::seq_lib::to_multiset_build(src.take(i as int), src[i as int]);
        }
        i = i + 1;
    }
    assert(src.take(i as int) =~= src);
    r
}

/// Parts joined by a separator.
pub open spec fn join(parts: Seq<Seq<char>>, sep: Seq<char>) -> Seq<char>
    decreases parts.len(),
{
    if parts.len() == 0 {
        Seq::empty()
    } else if parts.len() == 1 {
        parts[0]
    } else {
        join(parts.drop_last(), sep) + sep + parts.last()
    }
}

/// The strings joined by `sep` (`[String]::join`).
pub fn join_strings(parts: &Vec<String>, sep: &str) -> (r: String)
    ensures
        r@ == join(parts.deep_view(), sep@),
{
    let ghost pv = parts.deep_view();
    let mut r = String::new();
    let mut i: usize = 0;
    assert(r@ =~= join(pv.take(0), sep@));
    while i < parts.len()
        invariant
            pv == parts.deep_view(),
            i <= pv.len(),
            r@ == join(pv.take(i as int), sep@),
        decreases parts.len() - i,
    {
        assert(pv.take(i + 1).drop_last() =~= pv.take(i as int));
        if i > 0 {
            r.append(sep);
        }
        r.append(parts[i].as_str());
        proof {
            if i == 0 {
                assert(r@ =~= join(pv.take(1), sep@));
            }
        }
        i = i + 1;
    }
    assert(pv.take(i as int) =~= pv);
    r
}

/// `char::is_whitespace`: the Unicode `White_Space` property.
pub open spec fn is_whitespace(c: char) -> bool {
    let u = c as u32;
    (0x9 <= u && u <= 0xd) || u == 0x20 || u == 0x85 || u == 0xa0 || u == 0x1680 || (0x2000 <= u && u
        <= 0x200a) || u == 0x2028 || u == 0x2029 || u == 0x202f || u == 0x205f || u == 0x3000
}

fn is_whitespace_exec(c: char) -> (r: bool)
    ensures
        r == is_whitespace(c),
{
    let u = c as u32;
    (0x9 <= u && u <= 0xd) || u == 0x20 || u == 0x85 || u == 0xa0 || u == 0x1680 || (0x2000 <= u && u
        <= 0x200a) || u == 0x2028 || u == 0x2029 || u == 0x202f || u == 0x205f || u == 0x3000
}

/// `s` without leading whitespace.
pub open spec fn trim_start_spec(s: Seq<char>) -> Seq<char>
    decreases s.len(),
{
    if s.len() > 0 && is_whitespace(s[0]) {
        trim_start_spec(s.drop_first())
    } else {
        s
    }
}

/// `s` without trailing whitespace.
pub open spec fn trim_end_spec(s: Seq<char>) -> Seq<char>
    decreases s.len(),
{
    if s.len() > 0 && is_whitespace(s.last()) {
        trim_end_spec(s.drop_last())
    } else {
        s
    }
}

/// `str::trim`: `s` without leading and trailing whitespace.
pub open spec fn trim_spec(s: Seq<char>) -> Seq<char> {
    trim_end_spec(trim_start_spec(s))
}

proof fn lemma_trim_start(s: Seq<char>, i: int)
    requires
        0 <= i <= s.len(),
        forall|j: int| 0 <= j < i ==> is_whitespace(#[trigger] s[j]),
        i == s.len() || !is_whitespace(s[i]),
    ensures
        trim_start_spec(s) == s.skip(i),
    decreases s.len(),
{
    if i > 0 {
        assert(s.drop_first().skip(i - 1) =~= s.skip(i));
        lemma_trim_start(s.drop_first(), i - 1);
    } else {
        assert(s.skip(0) =~= s);
    }
}

proof fn lemma_trim_end(s: Seq<char>, h: int)
    requires
        0 <= h <= s.len(),
        forall|j: int| h <= j < s.len() ==> is_whitespace(#[trigger] s[j]),
        h == 0 || !is_whitespace(s[h - 1]),
    ensures
        trim_end_spec(s) == s.take(h),
    decreases s.len(),
{
    if h < s.len() {
        assert(s.drop_last().take(h) =~= s.take(h));
        lemma_trim_end(s.drop_last(), h);
    } else {
        assert(s.take(h) =~= s);
    }
}

/// `chars[lo..hi]` as a string.
fn string_of_range(chars: &Vec<char>, lo: usize, hi: usize) -> (r: String)
    requires
        lo <= hi <= chars@.len(),
    ensures
        r@ == chars@.subrange(lo as int, hi as int),
{
    let mut out = String::new();
    let mut k: usize = lo;
    while k < hi
        invariant
            lo <= k <= hi,
            hi <= chars@.len(),
            out@ == chars@.subrange(lo as int, k as int),
        decreases hi - k,
    {
        push_char(&mut out, chars[k]);
        assert(out@ =~= chars@.subrange(lo as int, k + 1));
        k = k + 1;
    }
    out
}

/// The trimmed part of `chars[from..to]`.
pub fn trim_range(chars: &Vec<char>, from: usize, to: usize) -> (r: String)
    requires
        from <= to <= chars@.len(),
    ensures
        r@ == trim_spec(chars@.subrange(from as int, to as int)),
{
    let ghost sub = chars@.subrange(from as int, to as int);
    let mut lo = from;
    while lo < to && is_whitespace_exec(chars[lo])
        invariant
            from <= lo <= to,
            to <= chars@.len(),
            forall|i: int| from <= i < lo ==> is_whitespace(#[trigger] chars@[i]),
        decreases to - lo,
    {
        lo = lo + 1;
    }
    let mut hi = to;
    while hi > lo && is_whitespace_exec(chars[hi - 1])
        invariant
            lo <= hi <= to,
            to <= chars@.len(),
            forall|i: int| hi <= i < to ==> is_whitespace(#[trigger] chars@[i]),
        decreases hi,
    {
        hi = hi - 1;
    }
    proof {
        let l = lo - from;
        assert forall|j: int| 0 <= j < l implies is_whitespace(#[trigger] sub[j]) by {
            assert(sub[j] == chars@[from + j]);
        }
        lemma_trim_start(sub, l);
        let rest = sub.skip(l);
        let h = hi - lo;
        assert forall|j: int| h <= j < rest.len() implies is_whitespace(#[trigger] rest[j]) by {
            assert(rest[j] == chars@[lo + j]);
        }
        lemma_trim_end(rest, h);
        assert(rest.take(h) =~= chars@.subrange(lo as int, hi as int));
    }
    string_of_range(chars, lo, hi)
}

/// `dir` joined with the relative path `name` (`Path::join` on Unix): a `/`
/// goes between them unless `dir` is empty or already ends with one.
pub open spec fn join_path(dir: Seq<char>, name: Seq<char>) -> Seq<char> {
    if dir.len() == 0 || dir.last() == '/' {
        dir + name
    } else {
        dir + seq!['/'] + name
    }
}

/// Joins a directory and a relative path.
pub fn join_path_str(dir: &str, name: &str) -> (r: String)
    ensures
        r@ == join_path(dir@, name@),
{
    let n = dir.unicode_len();
    if n == 0 || dir.get_char(n - 1) == '/' {
        dir.to_owned().concat(name)
    } else {
        let mut s = dir.to_owned();
        push_char(&mut s, '/');
        s.concat(name)
    }
}

} // verus!
