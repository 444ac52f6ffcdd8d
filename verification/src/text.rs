//! Character-level string operations with their specifications.
use vstd::prelude::*;

verus! {

/// The characters with the Unicode `White_Space` property, which is what
/// `char::is_whitespace` tests.
pub open spec fn is_white_space(c: char) -> bool {
    let v = c as u32;
    ||| 0x09 <= v <= 0x0d
    ||| v == 0x20
    ||| v == 0x85
    ||| v == 0xa0
    ||| v == 0x1680
    ||| 0x2000 <= v <= 0x200a
    ||| v == 0x2028
    ||| v == 0x2029
    ||| v == 0x202f
    ||| v == 0x205f
    ||| v == 0x3000
}

/// Whether a character has the Unicode `White_Space` property, as
/// `char::is_whitespace` tells.
pub(crate) fn char_is_whitespace(c: char) -> (res: bool)
    ensures
        res == is_white_space(c),
{
    let v = c as u32;
    (0x09 <= v && v <= 0x0d) || v == 0x20 || v == 0x85 || v == 0xa0 || v == 0x1680 || (0x2000 <= v
        && v <= 0x200a) || v == 0x2028 || v == 0x2029 || v == 0x202f || v == 0x205f || v == 0x3000
}

/// The length in bytes of the UTF-8 encoding of `s`, as `str::len` reports it.
pub open spec fn byte_len(s: Seq<char>) -> usize {
    vstd::utf8::encode_utf8(s).len() as usize
}

/// `String::push`: appends one character.
#[verifier::external_body]
pub(crate) fn push_char(s: &mut String, c: char)
    ensures
        final(s)@ == old(s)@.push(c),
{
    s.push(c)
}

/// The characters of a string slice, in order.
pub fn chars_of(s: &str) -> (v: Vec<char>)
    ensures
        v@ == s@,
{
    let mut v: Vec<char> = Vec::new();
    for c in it: s.chars()
        invariant
            v@ == it.seq().take(it.index()),
            it.seq() == s@,
    {
        v.push(c);
    }
    v
}

} // verus!

verus! {

/// Whether a text is empty once surrounding white space is trimmed, that is,
/// whether it holds white space only.
pub open spec fn is_blank(s: Seq<char>) -> bool {
    forall|i: int| 0 <= i < s.len() ==> is_white_space(#[trigger] s[i])
}

/// `s.trim().is_empty()`
pub fn blank(s: &str) -> (res: bool)
    ensures
        res == is_blank(s@),
{
    let cs = chars_of(s);
    let mut i: usize = 0;
    while i < cs.len()
        invariant
            cs@ == s@,
            i <= cs.len(),
            forall|j: int| 0 <= j < i ==> is_white_space(#[trigger] s@[j]),
        decreases cs.len() - i,
    {
        if !char_is_whitespace(cs[i]) {
            return false;
        }
        i = i + 1;
    }
    true
}

/// `s.contains(c)`
pub fn contains_char(s: &str, c: char) -> (res: bool)
    ensures
        res == s@.contains(c),
{
    let cs = chars_of(s);
    let mut i: usize = 0;
    while i < cs.len()
        invariant
            cs@ == s@,
            i <= cs.len(),
            forall|j: int| 0 <= j < i ==> s@[j] != c,
        decreases cs.len() - i,
    {
        if cs[i] == c {
            return true;
        }
        i = i + 1;
    }
    false
}

} // verus!

verus! {

/// `s` with every non-overlapping occurrence of `pat`, from the left,
/// replaced by `rep` (what `str::replace` does for a non-empty pattern).
pub open spec fn replaced(s: Seq<char>, pat: Seq<char>, rep: Seq<char>) -> Seq<char>
    decreases s.len(),
{
    if pat.len() == 0 || s.len() < pat.len() {
        s
    } else if s.take(pat.len() as int) == pat {
        rep + replaced(s.skip(pat.len() as int), pat, rep)
    } else {
        seq![s[0]] + replaced(s.drop_first(), pat, rep)
    }
}

/// The characters of `v` as a string.
pub fn string_from(v: &Vec<char>) -> (res: String)
    ensures
        res@ == v@,
{
    let mut s = String::new();
    let mut i: usize = 0;
    while i < v.len()
        invariant
            i <= v@.len(),
            s@ == v@.take(i as int),
        decreases v@.len() - i,
    {
        push_char(&mut s, v[i]);
        assert(v@.take(i + 1) =~= v@.take(i as int).push(v@[i as int]));
        i = i + 1;
    }
    assert(v@.take(v@.len() as int) =~= v@);
    s
}

/// Whether `pat` occurs in `cs` at position `i`.
pub fn occurs_at(cs: &Vec<char>, pat: &Vec<char>, i: usize) -> (res: bool)
    requires
        i <= cs@.len(),
    ensures
        res == (i + pat@.len() <= cs@.len() && cs@.subrange(i as int, i + pat@.len()) == pat@),
{
    if pat.len() > cs.len() - i {
        return false;
    }
    let n = cs.len();
    let mut k: usize = 0;
    while k < pat.len()
        invariant
            n == cs@.len(),
            i + pat@.len() <= cs@.len(),
            k <= pat@.len(),
            forall|j: int| 0 <= j < k ==> cs@[i + j] == pat@[j],
        decreases pat@.len() - k,
    {
        if cs[i + k] != pat[k] {
            assert(cs@.subrange(i as int, i + pat@.len())[k as int] != pat@[k as int]);
            return false;
        }
        k = k + 1;
    }
    assert(cs@.subrange(i as int, i + pat@.len()) =~= pat@);
    true
}

/// `s.replace(pat, rep)` for a non-empty pattern.
pub fn replace_str(s: &str, pat: &str, rep: &str) -> (res: String)
    requires
        pat@.len() > 0,
    ensures
        res@ == replaced(s@, pat@, rep@),
{
    let cs = chars_of(s);
    let pc = chars_of(pat);
    let mut out = String::new();
    let mut i: usize = 0;
    assert(s@.skip(0) =~= s@);
    while i < cs.len()
        invariant
            cs@ == s@,
            pc@ == pat@,
            pat@.len() > 0,
            i <= cs@.len(),
            out@ + replaced(s@.skip(i as int), pat@, rep@) == replaced(s@, pat@, rep@),
        decreases cs@.len() - i,
    {
        let ghost rest = s@.skip(i as int);
        if occurs_at(&cs, &pc, i) {
            assert(rest.take(pat@.len() as int) =~= s@.subrange(i as int, i + pat@.len()));
            assert(rest.skip(pat@.len() as int) =~= s@.skip(i + pat@.len()));
            out.append(rep);
            assert(out@ + replaced(s@.skip(i + pat@.len()), pat@, rep@) == replaced(
                s@,
                pat@,
                rep@,
            )) by {
                assert((out@ + replaced(s@.skip(i + pat@.len()), pat@, rep@)) =~= (out@.take(
                    out@.len() - rep@.len(),
                ) + replaced(rest, pat@, rep@)));
            }
            i = i + pc.len();
        } else {
            proof {
                if rest.len() >= pat@.len() {
                    assert(rest.take(pat@.len() as int) =~= s@.subrange(i as int, i + pat@.len()));
                }
            }
            assert(rest.drop_first() =~= s@.skip(i + 1));
            let ghost before = out@;
            push_char(&mut out, cs[i]);
            assert(out@ + replaced(s@.skip(i + 1), pat@, rep@) =~= before + replaced(rest, pat@, rep@));
            i = i + 1;
        }
    }
    assert(s@.skip(cs@.len() as int) =~= Seq::<char>::empty());
    assert(out@ + replaced(s@.skip(i as int), pat@, rep@) =~= out@);
    out
}

} // verus!

verus! {

/// The first position at or after `k` where `pat` occurs in `t`.
pub open spec fn find_from(t: Seq<char>, pat: Seq<char>, k: int) -> Option<int>
    decreases t.len() - k,
    when 0 <= k
{
    if k + pat.len() > t.len() {
        None
    } else if pat.len() == 0 || t.subrange(k, k + pat.len()) == pat {
        Some(k)
    } else {
        find_from(t, pat, k + 1)
    }
}

/// `t` without white space at its start.
pub open spec fn trim_start(s: Seq<char>) -> Seq<char>
    decreases s.len(),
{
    if s.len() > 0 && is_white_space(s[0]) {
        trim_start(s.drop_first())
    } else {
        s
    }
}

/// `t` without white space at its end.
pub open spec fn trim_end(s: Seq<char>) -> Seq<char>
    decreases s.len(),
{
    if s.len() > 0 && is_white_space(s.last()) {
        trim_end(s.drop_last())
    } else {
        s
    }
}

/// `str::trim`: without white space at either end.
pub open spec fn trimmed(s: Seq<char>) -> Seq<char> {
    trim_end(trim_start(s))
}

/// The first position at or after `from` where `pat` occurs in `cs`.
pub fn find_chars(cs: &Vec<char>, pat: &Vec<char>, from: usize) -> (res: Option<usize>)
    requires
        from <= cs@.len(),
    ensures
        res matches Some(k) ==> find_from(cs@, pat@, from as int) == Some(k as int),
        res is None ==> find_from(cs@, pat@, from as int) is None,
{
    let mut k = from;
    while k < cs.len()
        invariant
            from <= k <= cs@.len(),
            find_from(cs@, pat@, from as int) == find_from(cs@, pat@, k as int),
        decreases cs@.len() - k,
    {
        if occurs_at(cs, pat, k) {
            return Some(k);
        }
        proof {
            if pat@.len() == 0 {
                assert(cs@.subrange(k as int, k as int) =~= pat@);
            }
        }
        k = k + 1;
    }
    if occurs_at(cs, pat, k) {
        Some(k)
    } else {
        proof {
            if pat@.len() == 0 {
                assert(cs@.subrange(k as int, k as int) =~= pat@);
            }
        }
        None
    }
}

/// The characters of `v` from `a` up to `b`.
pub fn sub_chars(v: &Vec<char>, a: usize, b: usize) -> (res: Vec<char>)
    requires
        a <= b <= v@.len(),
    ensures
        res@ == v@.subrange(a as int, b as int),
{
    let mut out: Vec<char> = Vec::new();
    let mut i = a;
    while i < b
        invariant
            a <= i <= b <= v@.len(),
            out@ == v@.subrange(a as int, i as int),
        decreases b - i,
    {
        out.push(v[i]);
        assert(v@.subrange(a as int, i + 1) =~= v@.subrange(a as int, i as int).push(v@[i as int]));
        i = i + 1;
    }
    out
}

proof fn lemma_trim_start_skip(s: Seq<char>, a: int)
    requires
        0 <= a <= s.len(),
        forall|j: int| 0 <= j < a ==> is_white_space(#[trigger] s[j]),
    ensures
        trim_start(s) == trim_start(s.skip(a)),
    decreases a,
{
    if a > 0 {
        assert(s.drop_first().skip(a - 1) =~= s.skip(a));
        lemma_trim_start_skip(s.drop_first(), a - 1);
    } else {
        assert(s.skip(0) =~= s);
    }
}

proof fn lemma_trim_end_take(s: Seq<char>, b: int)
    requires
        0 <= b <= s.len(),
        forall|j: int| b <= j < s.len() ==> is_white_space(#[trigger] s[j]),
    ensures
        trim_end(s) == trim_end(s.take(b)),
    decreases s.len() - b,
{
    if b < s.len() {
        assert(s.drop_last().take(b) =~= s.take(b));
        lemma_trim_end_take(s.drop_last(), b);
    } else {
        assert(s.take(b) =~= s);
    }
}

/// `str::trim` on characters.
pub fn trim_chars(v: &Vec<char>) -> (res: Vec<char>)
    ensures
        res@ == trimmed(v@),
{
    let mut a: usize = 0;
    while a < v.len() && char_is_whitespace(v[a])
        invariant
            a <= v@.len(),
            forall|j: int| 0 <= j < a ==> is_white_space(#[trigger] v@[j]),
        decreases v@.len() - a,
    {
        a = a + 1;
    }
    proof {
        lemma_trim_start_skip(v@, a as int);
    }
    let mut b: usize = v.len();
    while b > a && char_is_whitespace(v[b - 1])
        invariant
            a <= b <= v@.len(),
            forall|j: int| b <= j < v@.len() ==> is_white_space(#[trigger] v@[j]),
        decreases b,
    {
        b = b - 1;
    }
    let res = sub_chars(v, a, b);
    proof {
        let t = v@.skip(a as int);
        assert(trim_start(t) == t);
        lemma_trim_end_take(t, b - a);
        assert(t.take(b - a) =~= res@);
        if res@.len() > 0 {
            assert(!is_white_space(res@.last()));
        }
    }
    res
}

} // verus!

verus! {

/// A position that `find_from` reports is a true occurrence at or after the
/// start.
pub proof fn lemma_find_from_found(t: Seq<char>, pat: Seq<char>, j: int)
    requires
        0 <= j,
        find_from(t, pat, j) is Some,
    ensures
        j <= find_from(t, pat, j)->0,
        find_from(t, pat, j)->0 + pat.len() <= t.len(),
        t.subrange(find_from(t, pat, j)->0, find_from(t, pat, j)->0 + pat.len()) == pat,
    decreases t.len() - j,
{
    if j + pat.len() > t.len() {
    } else if pat.len() == 0 || t.subrange(j, j + pat.len()) == pat {
        if pat.len() == 0 {
            assert(t.subrange(j, j) =~= pat);
        }
    } else {
        lemma_find_from_found(t, pat, j + 1);
    }
}

} // verus!

verus! {

/// Where the first `c` in `s` stands, or the length of `s` if none does.
pub open spec fn until_char(s: Seq<char>, c: char) -> nat
    decreases s.len(),
{
    if s.len() == 0 || s[0] == c {
        0
    } else {
        1 + until_char(s.drop_first(), c)
    }
}

/// Where the first `c` at or after `start` stands in `cs`, or the length.
pub fn find_char_from(cs: &Vec<char>, c: char, start: usize) -> (k: usize)
    requires
        start <= cs@.len(),
    ensures
        start <= k <= cs@.len(),
        k - start == until_char(cs@.skip(start as int), c),
{
    let mut k = start;
    while k < cs.len() && cs[k] != c
        invariant
            start <= k <= cs@.len(),
            until_char(cs@.skip(start as int), c) == (k - start) + until_char(
                cs@.skip(k as int),
                c,
            ),
        decreases cs@.len() - k,
    {
        assert(cs@.skip(k as int).drop_first() =~= cs@.skip(k + 1));
        k = k + 1;
    }
    k
}

/// `s.trim_start_matches(c)`: `s` without the copies of `c` it starts with.
pub open spec fn drop_leading(s: Seq<char>, c: char) -> Seq<char>
    decreases s.len(),
{
    if s.len() > 0 && s[0] == c {
        drop_leading(s.drop_first(), c)
    } else {
        s
    }
}

/// `s.trim_end_matches(c)`: `s` without the copies of `c` it ends with.
pub open spec fn drop_trailing(s: Seq<char>, c: char) -> Seq<char>
    decreases s.len(),
{
    if s.len() > 0 && s.last() == c {
        drop_trailing(s.drop_last(), c)
    } else {
        s
    }
}

/// `s.trim_start_matches(c)` on characters.
pub fn strip_leading(v: &Vec<char>, c: char) -> (res: Vec<char>)
    ensures
        res@ == drop_leading(v@, c),
{
    let mut a: usize = 0;
    assert(v@.skip(0) =~= v@);
    while a < v.len() && v[a] == c
        invariant
            a <= v@.len(),
            drop_leading(v@, c) == drop_leading(v@.skip(a as int), c),
        decreases v@.len() - a,
    {
        assert(v@.skip(a as int).drop_first() =~= v@.skip(a + 1));
        a = a + 1;
    }
    let n = v.len();
    let res = sub_chars(v, a, n);
    assert(res@ =~= v@.skip(a as int));
    res
}

/// `s.trim_end_matches(c)` on characters.
pub fn strip_trailing(v: &Vec<char>, c: char) -> (res: Vec<char>)
    ensures
        res@ == drop_trailing(v@, c),
{
    let mut b: usize = v.len();
    assert(v@.take(b as int) =~= v@);
    while b > 0 && v[b - 1] == c
        invariant
            b <= v@.len(),
            drop_trailing(v@, c) == drop_trailing(v@.take(b as int), c),
        decreases b,
    {
        assert(v@.take(b as int).drop_last() =~= v@.take(b - 1));
        b = b - 1;
    }
    let res = sub_chars(v, 0, b);
    assert(res@ =~= v@.take(b as int));
    res
}

/// Whether two character sequences are equal.
pub fn chars_equal(a: &Vec<char>, b: &Vec<char>) -> (res: bool)
    ensures
        res == (a@ == b@),
{
    if a.len() != b.len() {
        return false;
    }
    let mut i: usize = 0;
    while i < a.len()
        invariant
            a@.len() == b@.len(),
            i <= a@.len(),
            forall|j: int| 0 <= j < i ==> a@[j] == b@[j],
        decreases a@.len() - i,
    {
        if a[i] != b[i] {
            return false;
        }
        i = i + 1;
    }
    assert(a@ =~= b@);
    true
}

/// `a == b` for string slices.
pub fn str_equal(a: &str, b: &str) -> (res: bool)
    ensures
        res == (a@ == b@),
{
    chars_equal(&chars_of(a), &chars_of(b))
}

/// A decimal digit.
pub open spec fn digit_char(d: int) -> char {
    ('0' as int + d) as char
}

/// The decimal digits of a natural number, without leading zeros.
pub open spec fn digits(n: nat) -> Seq<char>
    decreases n,
{
    if n < 10 {
        seq![digit_char(n as int)]
    } else {
        digits(n / 10).push(digit_char((n % 10) as int))
    }
}

/// The decimal text of an integer, with `-` before a negative one.
pub open spec fn decimal(v: int) -> Seq<char> {
    if v < 0 {
        seq!['-'] + digits((-v) as nat)
    } else {
        digits(v as nat)
    }
}

/// The digit character of a number below ten.
fn digit_of(d: u64) -> (res: char)
    requires
        d < 10,
    ensures
        res == digit_char(d as int),
{
    match d {
        0 => '0',
        1 => '1',
        2 => '2',
        3 => '3',
        4 => '4',
        5 => '5',
        6 => '6',
        7 => '7',
        8 => '8',
        _ => '9',
    }
}

/// The decimal digits of a number, most significant first.
fn digits_of(n: u64) -> (res: Vec<char>)
    ensures
        res@ == digits(n as nat),
    decreases n,
{
    if n < 10 {
        let mut v: Vec<char> = Vec::new();
        v.push(digit_of(n));
        v
    } else {
        let mut v = digits_of(n / 10);
        v.push(digit_of(n % 10));
        v
    }
}

/// The decimal text of a number, with `-` before a negative one, as
/// `i64::to_string` writes it.
pub(crate) fn int_text(v: i64) -> (res: String)
    ensures
        res@ == decimal(v as int),
{
    if v < 0 {
        let m: i128 = -(v as i128);
        let mut out: Vec<char> = Vec::new();
        out.push('-');
        let mut ds = digits_of(m as u64);
        out.append(&mut ds);
        assert(out@ =~= seq!['-'] + digits((-(v as int)) as nat));
        string_from(&out)
    } else {
        string_from(&digits_of(v as u64))
    }
}

/// Whether every character is an ASCII digit and there is at least one.
pub open spec fn all_digits(s: Seq<char>) -> bool {
    s.len() > 0 && forall|i: int| 0 <= i < s.len() ==> '0' <= #[trigger] s[i] <= '9'
}

/// The number that a sequence of decimal digits writes.
pub open spec fn digits_value(s: Seq<char>) -> int
    decreases s.len(),
{
    if s.len() == 0 {
        0
    } else {
        digits_value(s.drop_last()) * 10 + (s.last() as int - '0' as int)
    }
}

/// The integer that a text writes in the syntax `str::parse` accepts for
/// integers: an optional `+` or `-`, then one or more ASCII digits.
pub open spec fn int_value(s: Seq<char>) -> Option<int> {
    if s.len() > 0 && (s[0] == '+' || s[0] == '-') {
        if all_digits(s.drop_first()) {
            Some(
                if s[0] == '-' {
                    -digits_value(s.drop_first())
                } else {
                    digits_value(s.drop_first())
                },
            )
        } else {
            None
        }
    } else if all_digits(s) {
        Some(digits_value(s))
    } else {
        None
    }
}

/// `s.parse::<i64>().ok()`: the number, if the text writes one in range.
#[verifier::external_body]
pub(crate) fn parse_i64(s: &str) -> (res: Option<i64>)
    ensures
        res is Some <==> (int_value(s@) matches Some(v) && i64::MIN <= v <= i64::MAX),
        res matches Some(v) ==> int_value(s@) == Some(v as int),
{
    s.parse::<i64>().ok()
}

} // verus!

verus! {

proof fn lemma_digits(n: nat)
    ensures
        all_digits(digits(n)),
        digits_value(digits(n)) == n,
        digits(n)[0] != '+' && digits(n)[0] != '-',
    decreases n,
{
    if n >= 10 {
        lemma_digits(n / 10);
        let d = digits(n);
        assert(d.drop_last() =~= digits(n / 10));
        assert forall|i: int| 0 <= i < d.len() implies '0' <= #[trigger] d[i] <= '9' by {
            if i < d.len() - 1 {
                assert(d[i] == digits(n / 10)[i]);
            }
        }
        assert(d[0] == digits(n / 10)[0]);
        assert(d.last() as int - '0' as int == n % 10);
        assert(digits_value(d) == (n / 10) * 10 + n % 10);
        vstd::arithmetic::div_mod::lemma_fundamental_div_mod(n as int, 10);
    } else {
        assert(digits(n).drop_last() =~= Seq::<char>::empty());
        assert(digits_value(Seq::<char>::empty()) == 0);
        assert(digits(n).last() as int - '0' as int == n);
    }
}

/// The decimal text of an integer reads back as that integer.
pub proof fn lemma_decimal_round_trip(v: int)
    ensures
        int_value(decimal(v)) == Some(v),
{
    if v < 0 {
        lemma_digits((-v) as nat);
        assert(decimal(v).drop_first() =~= digits((-v) as nat));
    } else {
        lemma_digits(v as nat);
    }
}

} // verus!
