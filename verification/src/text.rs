//! Character-level helpers shared by every module that reads or builds text.
//! Text is reasoned about as its sequence of `char`s.

use vstd::prelude::*;

verus! {

/// Appends one character to a string (std's `String::push`).
#[verifier::external_body]
pub(crate) fn push_char(s: &mut String, c: char)
    ensures
        final(s)@ == old(s)@.push(c),
{
    s.push(c);
}

/// The characters of `s`, in order.
pub fn chars_of(s: &str) -> (out: Vec<char>)
    ensures
        out@ == s@,
{
    let n = s.unicode_len();
    let mut out: Vec<char> = Vec::new();
    let mut i: usize = 0;
    while i < n
        invariant
            n == s@.len(),
            i <= n,
            out@ == s@.subrange(0, i as int),
        decreases n - i,
    {
        out.push(s.get_char(i));
        i += 1;
    }
    out
}

/// The string spelled by `cs`.
pub fn string_of(cs: &Vec<char>) -> (s: String)
    ensures
        s@ == cs@,
{
    let mut s = String::new();
    let mut i: usize = 0;
    while i < cs.len()
        invariant
            i <= cs@.len(),
            s@ == cs@.subrange(0, i as int),
        decreases cs.len() - i,
    {
        push_char(&mut s, cs[i]);
        i += 1;
    }
    s
}

/// Whether two character sequences are equal.
pub fn chars_eq(a: &Vec<char>, b: &Vec<char>) -> (r: bool)
    ensures
        r == (a@ == b@),
{
    if a.len() != b.len() {
        return false;
    }
    let mut i: usize = 0;
    while i < a.len()
        invariant
            a@.len() == b@.len(),
            i <= a@.len(),
            forall|j: int| 0 <= j < i ==> a@[j] == b@[j],
        decreases a.len() - i,
    {
        if a[i] != b[i] {
            return false;
        }
        i += 1;
    }
    assert(a@ =~= b@);
    true
}

/// Whether two strings hold the same characters.
pub fn str_eq(a: &str, b: &str) -> (r: bool)
    ensures
        r == (a@ == b@),
{
    let x = chars_of(a);
    let y = chars_of(b);
    chars_eq(&x, &y)
}


/// Appends every character of `s` to `out`.
pub fn push_all(out: &mut Vec<char>, s: &Vec<char>)
    ensures
        final(out)@ == old(out)@ + s@,
{
    let ghost start = out@;
    let mut i: usize = 0;
    while i < s.len()
        invariant
            i <= s@.len(),
            out@ == start + s@.subrange(0, i as int),
        decreases s.len() - i,
    {
        out.push(s[i]);
        i += 1;
        assert(s@.subrange(0, i as int) =~= s@.subrange(0, i - 1).push(s@[i - 1]));
    }
    assert(s@.subrange(0, s@.len() as int) =~= s@);
}

/// Appends every character of the string slice `s` to `out`.
pub fn push_str(out: &mut Vec<char>, s: &str)
    ensures
        final(out)@ == old(out)@ + s@,
{
    let cs = chars_of(s);
    push_all(out, &cs);
}

/// The characters of `cs` from `lo` up to (not including) `hi`.
pub fn sub_chars(cs: &Vec<char>, lo: usize, hi: usize) -> (out: Vec<char>)
    requires
        lo <= hi <= cs@.len(),
    ensures
        out@ == cs@.subrange(lo as int, hi as int),
{
    let mut out: Vec<char> = Vec::new();
    let mut i: usize = lo;
    while i < hi
        invariant
            lo <= i <= hi <= cs@.len(),
            out@ == cs@.subrange(lo as int, i as int),
        decreases hi - i,
    {
        out.push(cs[i]);
        i += 1;
        assert(cs@.subrange(lo as int, i as int) =~= cs@.subrange(lo as int, i - 1).push(cs@[i - 1]));
    }
    out
}

/// Whether `c` is white space in Unicode's sense (the set `char::is_whitespace`
/// answers for).
pub open spec fn is_ws(c: char) -> bool {
    let u = c as u32;
    (9 <= u <= 13) || u == 32 || u == 0x85 || u == 0xa0 || u == 0x1680 || (0x2000 <= u <= 0x200a)
        || u == 0x2028 || u == 0x2029 || u == 0x202f || u == 0x205f || u == 0x3000
}

/// Whether `c` is white space.
pub fn is_whitespace(c: char) -> (r: bool)
    ensures
        r == is_ws(c),
{
    let u = c as u32;
    (9 <= u && u <= 13) || u == 32 || u == 0x85 || u == 0xa0 || u == 0x1680 || (0x2000 <= u && u
        <= 0x200a) || u == 0x2028 || u == 0x2029 || u == 0x202f || u == 0x205f || u == 0x3000
}

/// `s` without its leading white space.
pub open spec fn trim_start(s: Seq<char>) -> Seq<char>
    decreases s.len(),
{
    if s.len() > 0 && is_ws(s[0]) {
        trim_start(s.drop_first())
    } else {
        s
    }
}

/// `s` without its trailing white space.
pub open spec fn trim_end(s: Seq<char>) -> Seq<char>
    decreases s.len(),
{
    if s.len() > 0 && is_ws(s.last()) {
        trim_end(s.drop_last())
    } else {
        s
    }
}

/// `s` without leading or trailing white space (`str::trim`).
pub open spec fn trim(s: Seq<char>) -> Seq<char> {
    trim_end(trim_start(s))
}

/// `cs` without leading or trailing white space.
pub fn trim_chars(cs: &Vec<char>) -> (out: Vec<char>)
    ensures
        out@ == trim(cs@),
{
    let n = cs.len();
    let mut lo: usize = 0;
    assert(cs@.subrange(0, n as int) =~= cs@);
    while lo < n && is_whitespace(cs[lo])
        invariant
            n == cs@.len(),
            lo <= n,
            trim_start(cs@) == trim_start(cs@.subrange(lo as int, n as int)),
        decreases n - lo,
    {
        assert(cs@.subrange(lo as int, n as int).drop_first() =~= cs@.subrange(lo + 1, n as int));
        lo += 1;
    }
    assert(trim_start(cs@) == cs@.subrange(lo as int, n as int));
    let mut hi: usize = n;
    while hi > lo && is_whitespace(cs[hi - 1])
        invariant
            n == cs@.len(),
            lo <= hi <= n,
            trim(cs@) == trim_end(cs@.subrange(lo as int, hi as int)),
        decreases hi - lo,
    {
        assert(cs@.subrange(lo as int, hi as int).drop_last() =~= cs@.subrange(lo as int, hi - 1));
        hi -= 1;
    }
    sub_chars(cs, lo, hi)
}

/// `s` without leading or trailing white space.
pub fn trim_str(s: &str) -> (out: Vec<char>)
    ensures
        out@ == trim(s@),
{
    let cs = chars_of(s);
    trim_chars(&cs)
}

/// Whether `s` begins with `p`.
pub open spec fn starts_with(s: Seq<char>, p: Seq<char>) -> bool {
    p.len() <= s.len() && s.subrange(0, p.len() as int) == p
}

/// Whether `s` ends with `p`.
pub open spec fn ends_with(s: Seq<char>, p: Seq<char>) -> bool {
    p.len() <= s.len() && s.subrange(s.len() - p.len(), s.len() as int) == p
}

/// Whether `p` occurs in `s` starting at index `i`.
pub open spec fn occurs_at(s: Seq<char>, p: Seq<char>, i: int) -> bool {
    0 <= i && i + p.len() <= s.len() && s.subrange(i, i + p.len()) == p
}

/// Whether `p` occurs anywhere in `s`.
pub open spec fn has_sub(s: Seq<char>, p: Seq<char>) -> bool {
    exists|i: int| occurs_at(s, p, i)
}

/// Whether `p` occurs in `cs` at `i`.
pub fn occurs_at_exec(cs: &Vec<char>, p: &Vec<char>, i: usize) -> (r: bool)
    ensures
        r == occurs_at(cs@, p@, i as int),
{
    if p.len() > cs.len() || i > cs.len() - p.len() {
        return false;
    }
    let n = cs.len();
    let mut j: usize = 0;
    while j < p.len()
        invariant
            n == cs@.len(),
            i + p@.len() <= cs@.len(),
            j <= p@.len(),
            forall|k: int| 0 <= k < j ==> cs@[i + k] == p@[k],
        decreases p.len() - j,
    {
        assert(i + j < cs@.len());
        if cs[i + j] != p[j] {
            assert(cs@.subrange(i as int, i + p@.len())[j as int] != p@[j as int]);
            return false;
        }
        j += 1;
    }
    assert(cs@.subrange(i as int, i + p@.len()) =~= p@);
    true
}

/// Whether `cs` begins with `p`.
pub fn starts_with_exec(cs: &Vec<char>, p: &Vec<char>) -> (r: bool)
    ensures
        r == starts_with(cs@, p@),
{
    occurs_at_exec(cs, p, 0)
}

/// Whether `cs` ends with `p`.
pub fn ends_with_exec(cs: &Vec<char>, p: &Vec<char>) -> (r: bool)
    ensures
        r == ends_with(cs@, p@),
{
    if p.len() > cs.len() {
        return false;
    }
    occurs_at_exec(cs, p, cs.len() - p.len())
}

/// Whether `cs` begins with the string `p`.
pub fn starts_with_str(cs: &Vec<char>, p: &str) -> (r: bool)
    ensures
        r == starts_with(cs@, p@),
{
    let pc = chars_of(p);
    starts_with_exec(cs, &pc)
}

/// Whether `cs` ends with the string `p`.
pub fn ends_with_str(cs: &Vec<char>, p: &str) -> (r: bool)
    ensures
        r == ends_with(cs@, p@),
{
    let pc = chars_of(p);
    ends_with_exec(cs, &pc)
}

/// The first index at or after `from` where `p` occurs in `cs`.
pub fn find_from(cs: &Vec<char>, p: &Vec<char>, from: usize) -> (r: Option<usize>)
    requires
        from <= cs@.len(),
    ensures
        r matches Some(i) ==> from <= i && occurs_at(cs@, p@, i as int) && forall|k: int|
            from <= k < i ==> !occurs_at(cs@, p@, k),
        r is None ==> forall|k: int| from <= k ==> !occurs_at(cs@, p@, k),
{
    let mut i: usize = from;
    while i <= cs.len()
        invariant
            from <= i,
            from <= cs@.len(),
            forall|k: int| from <= k < i ==> !occurs_at(cs@, p@, k),
        decreases cs.len() + 1 - i,
    {
        if occurs_at_exec(cs, p, i) {
            return Some(i);
        }
        if i == cs.len() {
            proof {
                assert forall|k: int| from <= k implies !occurs_at(cs@, p@, k) by {
                    if k > i {
                        assert(k + p@.len() > cs@.len());
                    }
                }
            }
            return None;
        }
        i += 1;
    }
    None
}

/// The first index where `p` occurs in `cs`.
pub fn find_sub(cs: &Vec<char>, p: &Vec<char>) -> (r: Option<usize>)
    ensures
        r matches Some(i) ==> occurs_at(cs@, p@, i as int) && forall|k: int|
            0 <= k < i ==> !occurs_at(cs@, p@, k),
        r is None ==> !has_sub(cs@, p@),
{
    find_from(cs, p, 0)
}

/// Whether the string `p` occurs in `cs`.
pub fn contains_str(cs: &Vec<char>, p: &str) -> (r: bool)
    ensures
        r == has_sub(cs@, p@),
{
    let pc = chars_of(p);
    match find_sub(cs, &pc) {
        Some(_) => true,
        None => false,
    }
}

/// The first index of `c` in `s`, as an option.
pub open spec fn first_index(s: Seq<char>, c: char) -> Option<int> {
    if s.contains(c) {
        Some(choose|i: int| 0 <= i < s.len() && s[i] == c && forall|k: int| 0 <= k < i ==> s[k] != c)
    } else {
        None
    }
}

/// The first index of `c` in `cs`.
pub fn find_char(cs: &Vec<char>, c: char) -> (r: Option<usize>)
    ensures
        r matches Some(i) ==> i < cs@.len() && cs@[i as int] == c && forall|k: int|
            0 <= k < i ==> cs@[k] != c,
        r is None ==> !cs@.contains(c),
        r matches Some(i) ==> first_index(cs@, c) == Some(i as int),
        r is None ==> first_index(cs@, c) is None,
{
    let mut i: usize = 0;
    while i < cs.len()
        invariant
            i <= cs@.len(),
            forall|k: int| 0 <= k < i ==> cs@[k] != c,
        decreases cs.len() - i,
    {
        if cs[i] == c {
            proof {
                let j = choose|j: int|
                    0 <= j < cs@.len() && cs@[j] == c && forall|k: int| 0 <= k < j ==> cs@[k] != c;
                assert(cs@[i as int] == c);
                if j < i {
                } else if j > i {
                    assert(cs@[i as int] != c);
                }
            }
            return Some(i);
        }
        i += 1;
    }
    None
}

/// Whether `c` occurs in `cs`.
pub fn has_char(cs: &Vec<char>, c: char) -> (r: bool)
    ensures
        r == cs@.contains(c),
{
    match find_char(cs, c) {
        Some(_) => true,
        None => false,
    }
}

/// The last index of `c` in `s`, as an option.
pub open spec fn last_index(s: Seq<char>, c: char) -> Option<int> {
    if s.contains(c) {
        Some(choose|i: int| 0 <= i < s.len() && s[i] == c && forall|k: int| i < k < s.len() ==> s[k] != c)
    } else {
        None
    }
}

/// The last index of `c` in `cs`.
pub fn rfind_char(cs: &Vec<char>, c: char) -> (r: Option<usize>)
    ensures
        r matches Some(i) ==> last_index(cs@, c) == Some(i as int),
        r is None ==> last_index(cs@, c) is None,
        r matches Some(i) ==> i < cs@.len() && cs@[i as int] == c && forall|k: int|
            i < k < cs@.len() ==> cs@[k] != c,
        r is None ==> !cs@.contains(c),
{
    let mut i: usize = cs.len();
    while i > 0
        invariant
            i <= cs@.len(),
            forall|k: int| i <= k < cs@.len() ==> cs@[k] != c,
        decreases i,
    {
        if cs[i - 1] == c {
            proof {
                let j = choose|j: int|
                    0 <= j < cs@.len() && cs@[j] == c && forall|k: int| j < k < cs@.len() ==> cs@[k] != c;
                assert(cs@[i - 1] == c);
                if j < i - 1 {
                    assert(cs@[i - 1] != c);
                }
            }
            return Some(i - 1);
        }
        i -= 1;
    }
    None
}

/// `c` with an ASCII lower-case letter raised to upper case.
pub open spec fn upper(c: char) -> char {
    if 'a' <= c <= 'z' {
        ((c as u32) - 32) as char
    } else {
        c
    }
}

/// `c` with an ASCII upper-case letter lowered to lower case.
pub open spec fn lower(c: char) -> char {
    if 'A' <= c <= 'Z' {
        ((c as u32) + 32) as char
    } else {
        c
    }
}

/// `c` in ASCII upper case.
pub fn to_upper(c: char) -> (r: char)
    ensures
        r == upper(c),
{
    if 'a' <= c && c <= 'z' {
        ((c as u32) - 32) as u8 as char
    } else {
        c
    }
}

/// `c` in ASCII lower case.
pub fn to_lower(c: char) -> (r: char)
    ensures
        r == lower(c),
{
    if 'A' <= c && c <= 'Z' {
        ((c as u32) + 32) as u8 as char
    } else {
        c
    }
}

/// `s` in ASCII upper case.
pub open spec fn upper_all(s: Seq<char>) -> Seq<char> {
    Seq::new(s.len(), |i: int| upper(s[i]))
}

/// Whether `a` and `b` are equal ignoring ASCII case.
pub open spec fn eq_ignore_case(a: Seq<char>, b: Seq<char>) -> bool {
    a.len() == b.len() && forall|i: int| 0 <= i < a.len() ==> lower(a[i]) == lower(b[i])
}

/// `cs` in ASCII upper case.
pub fn upper_chars(cs: &Vec<char>) -> (out: Vec<char>)
    ensures
        out@ == upper_all(cs@),
{
    let mut out: Vec<char> = Vec::new();
    let mut i: usize = 0;
    while i < cs.len()
        invariant
            i <= cs@.len(),
            out@.len() == i,
            forall|k: int| 0 <= k < i ==> out@[k] == upper(cs@[k]),
        decreases cs.len() - i,
    {
        out.push(to_upper(cs[i]));
        i += 1;
    }
    assert(out@ =~= upper_all(cs@));
    out
}

/// Whether `a` and `b` are equal ignoring ASCII case.
pub fn eq_ignore_case_exec(a: &Vec<char>, b: &Vec<char>) -> (r: bool)
    ensures
        r == eq_ignore_case(a@, b@),
{
    if a.len() != b.len() {
        return false;
    }
    let mut i: usize = 0;
    while i < a.len()
        invariant
            a@.len() == b@.len(),
            i <= a@.len(),
            forall|k: int| 0 <= k < i ==> lower(a@[k]) == lower(b@[k]),
        decreases a.len() - i,
    {
        if to_lower(a[i]) != to_lower(b[i]) {
            return false;
        }
        i += 1;
    }
    true
}

/// Whether `c` is an ASCII digit.
pub open spec fn is_digit(c: char) -> bool {
    '0' <= c <= '9'
}

/// The numeric value of a digit.
pub open spec fn digit_of(c: char) -> int {
    (c as u32) - ('0' as u32)
}

/// Whether every character of `s` is an ASCII digit.
pub open spec fn all_digits(s: Seq<char>) -> bool {
    forall|i: int| 0 <= i < s.len() ==> is_digit(#[trigger] s[i])
}

/// The number the digits of `s` spell, most significant first.
pub open spec fn digits_value(s: Seq<char>) -> int
    decreases s.len(),
{
    if s.len() == 0 {
        0
    } else {
        10 * digits_value(s.drop_last()) + digit_of(s.last())
    }
}

/// The digits part of a number's text: all of it after an optional `+`.
pub open spec fn uint_digits(s: Seq<char>) -> Seq<char> {
    if s.len() > 0 && s[0] == '+' {
        s.drop_first()
    } else {
        s
    }
}

/// What `str::parse` makes of `s` for an unsigned type whose largest value is
/// `max`: an optional `+`, then one or more digits whose value fits.
pub open spec fn parse_uint_spec(s: Seq<char>, max: int) -> Option<int> {
    let d = uint_digits(s);
    if d.len() > 0 && all_digits(d) && digits_value(d) <= max {
        Some(digits_value(d))
    } else {
        None
    }
}

proof fn lemma_digits_value_nonneg(s: Seq<char>)
    requires
        all_digits(s),
    ensures
        digits_value(s) >= 0,
    decreases s.len(),
{
    if s.len() > 0 {
        assert(all_digits(s.drop_last())) by {
            assert forall|i: int| 0 <= i < s.drop_last().len() implies is_digit(#[trigger] s.drop_last()[i]) by {
                assert(s.drop_last()[i] == s[i]);
            }
        }
        lemma_digits_value_nonneg(s.drop_last());
        assert(is_digit(s[s.len() - 1]));
    }
}

/// Whether `c` is an ASCII digit.
pub fn is_digit_exec(c: char) -> (r: bool)
    ensures
        r == is_digit(c),
{
    '0' <= c && c <= '9'
}

/// Parse `cs` as an unsigned number no larger than `max`, as `str::parse`
/// does for an unsigned type with that maximum.
pub fn parse_uint(cs: &Vec<char>, max: u64) -> (r: Option<u64>)
    ensures
        r matches Some(v) ==> parse_uint_spec(cs@, max as int) == Some(v as int),
        r is None ==> parse_uint_spec(cs@, max as int) is None,
{
    let start: usize = if cs.len() > 0 && cs[0] == '+' {
        1
    } else {
        0
    };
    let ghost d = cs@.skip(start as int);
    assert(start == 1 ==> d =~= cs@.drop_first());
    assert(start == 0 ==> d =~= cs@);
    if start >= cs.len() {
        return None;
    }
    let mut acc: u64 = 0;
    let mut i: usize = start;
    while i < cs.len()
        invariant
            start <= i <= cs@.len(),
            d == cs@.skip(start as int),
            d == uint_digits(cs@),
            all_digits(d.take(i - start)),
            acc as int == digits_value(d.take(i - start)),
            acc <= max,
        decreases cs.len() - i,
    {
        let c = cs[i];
        let ghost k = i - start;
        assert(d.take(k + 1).drop_last() =~= d.take(k));
        assert(d.take(k + 1).last() == c);
        if !is_digit_exec(c) {
            assert(!all_digits(d)) by {
                assert(d[k] == c);
            }
            return None;
        }
        let v = (c as u32 - '0' as u32) as u64;
        if v > max || acc > (max - v) / 10 {
            proof {
                assert(digits_value(d.take(k + 1)) == 10 * acc + v);
                if v <= max {
                    assert(10 * (acc as int) + v > max) by (nonlinear_arith)
                        requires acc > (max - v) / 10, v <= max;
                }
                if all_digits(d) {
                    assert(all_digits(d.take(k + 1))) by {
                        assert forall|j: int| 0 <= j < k + 1 implies is_digit(#[trigger] d.take(k + 1)[j]) by {
                            assert(d.take(k + 1)[j] == d[j]);
                        }
                    }
                    lemma_prefix_bound(d, k + 1);
                }
            }
            return None;
        }
        assert(10 * (acc as int) + v <= max) by (nonlinear_arith)
            requires acc <= (max - v) / 10, v <= max;
        acc = acc * 10 + v;
        assert(all_digits(d.take(k + 1))) by {
            assert forall|j: int| 0 <= j < k + 1 implies is_digit(#[trigger] d.take(k + 1)[j]) by {
                if j < k {
                    assert(d.take(k + 1)[j] == d.take(k)[j]);
                }
            }
        }
        i += 1;
    }
    assert(d.take(cs@.len() - start) =~= d);
    Some(acc)
}

proof fn lemma_prefix_bound(d: Seq<char>, k: int)
    requires
        0 <= k <= d.len(),
        all_digits(d.take(k)),
    ensures
        all_digits(d) ==> digits_value(d.take(k)) <= digits_value(d),
    decreases d.len() - k,
{
    if k < d.len() && all_digits(d) {
        assert(all_digits(d.take(k + 1))) by {
            assert forall|j: int| 0 <= j < k + 1 implies is_digit(#[trigger] d.take(k + 1)[j]) by {
                assert(d.take(k + 1)[j] == d[j]);
            }
        }
        lemma_prefix_bound(d, k + 1);
        assert(d.take(k + 1).drop_last() =~= d.take(k));
        lemma_digits_value_nonneg(d.take(k));
        assert(is_digit(d[k]));
    } else if k == d.len() {
        assert(d.take(k) =~= d);
    }
}

/// The decimal spelling of `n`.
pub open spec fn decimal(n: nat) -> Seq<char>
    decreases n,
{
    if n < 10 {
        seq![(n + 48) as char]
    } else {
        decimal(n / 10).push(((n % 10) + 48) as char)
    }
}

/// The decimal spelling of a signed number.
pub open spec fn decimal_int(n: int) -> Seq<char> {
    if n < 0 {
        seq!['-'] + decimal((-n) as nat)
    } else {
        decimal(n as nat)
    }
}

/// The decimal spelling of `n`.
pub fn decimal_u64(n: u64) -> (out: Vec<char>)
    ensures
        out@ == decimal(n as nat),
    decreases n,
{
    if n < 10 {
        let mut out: Vec<char> = Vec::new();
        out.push(((n as u8) + 48) as char);
        out
    } else {
        let mut out = decimal_u64(n / 10);
        out.push((((n % 10) as u8) + 48) as char);
        out
    }
}

/// The decimal spelling of a signed number.
pub fn decimal_i64(n: i64) -> (out: Vec<char>)
    ensures
        out@ == decimal_int(n as int),
{
    if n < 0 {
        let mut out: Vec<char> = Vec::new();
        out.push('-');
        let magnitude: u64 = if n == i64::MIN {
            0x8000_0000_0000_0000
        } else {
            (-n) as u64
        };
        let digits = decimal_u64(magnitude);
        push_all(&mut out, &digits);
        out
    } else {
        decimal_u64(n as u64)
    }
}

/// `s` split at the first `c`: the part before it and the part after it.
pub open spec fn split_once_spec(s: Seq<char>, c: char) -> Option<(Seq<char>, Seq<char>)> {
    match first_index(s, c) {
        Some(i) => Some((s.take(i), s.skip(i + 1))),
        None => None,
    }
}

/// The part of `s` before the first `c`, or all of `s` when there is none.
pub open spec fn before_char(s: Seq<char>, c: char) -> Seq<char> {
    match split_once_spec(s, c) {
        Some((a, _)) => a,
        None => s,
    }
}

/// `cs` split at the first `c`.
pub fn split_once(cs: &Vec<char>, c: char) -> (r: Option<(Vec<char>, Vec<char>)>)
    ensures
        r matches Some((a, b)) ==> split_once_spec(cs@, c) == Some((a@, b@)),
        r is None ==> split_once_spec(cs@, c) is None,
{
    let n = cs.len();
    match find_char(cs, c) {
        Some(i) => {
            assert(i < n);
            let a = sub_chars(cs, 0, i);
            let b = sub_chars(cs, i + 1, n);
            assert(a@ =~= cs@.take(i as int));
            assert(b@ =~= cs@.skip(i + 1));
            Some((a, b))
        },
        None => None,
    }
}

/// The part of `cs` before the first `c`, or all of it.
pub fn before_char_exec(cs: &Vec<char>, c: char) -> (r: Vec<char>)
    ensures
        r@ == before_char(cs@, c),
{
    match split_once(cs, c) {
        Some((a, _)) => a,
        None => sub_chars(cs, 0, cs.len()),
    }
}

/// The first index at which `p` occurs in `s`.
#[verifier::opaque]
pub open spec fn first_occ(s: Seq<char>, p: Seq<char>) -> Option<int> {
    if has_sub(s, p) {
        Some(choose|i: int| occurs_at(s, p, i) && forall|k: int| 0 <= k < i ==> !occurs_at(s, p, k))
    } else {
        None
    }
}

/// The first index at which `p` occurs in `cs`.
pub fn first_occ_exec(cs: &Vec<char>, p: &Vec<char>) -> (r: Option<usize>)
    ensures
        r matches Some(i) ==> first_occ(cs@, p@) == Some(i as int) && occurs_at(cs@, p@, i as int),
        r is None ==> first_occ(cs@, p@) is None,
{
    reveal(first_occ);
    match find_sub(cs, p) {
        Some(i) => {
            proof {
                assert(has_sub(cs@, p@));
                let j = choose|j: int|
                    occurs_at(cs@, p@, j) && forall|k: int| 0 <= k < j ==> !occurs_at(cs@, p@, k);
                if j < i {
                } else if j > i {
                }
            }
            Some(i)
        },
        None => None,
    }
}

/// Concatenation of three character vectors.
pub fn concat3(a: &Vec<char>, b: &Vec<char>, c: &Vec<char>) -> (r: Vec<char>)
    ensures
        r@ == a@ + b@ + c@,
{
    let mut r: Vec<char> = Vec::new();
    push_all(&mut r, a);
    push_all(&mut r, b);
    push_all(&mut r, c);
    assert(r@ =~= a@ + b@ + c@);
    r
}

/// The pieces of `s` between occurrences of `c` (`str::split`): always at
/// least one, empty pieces kept.
pub open spec fn split_on(s: Seq<char>, c: char) -> Seq<Seq<char>>
    decreases s.len(),
{
    if s.len() == 0 {
        seq![Seq::empty()]
    } else {
        let r = split_on(s.drop_last(), c);
        if s.last() == c {
            r.push(Seq::empty())
        } else {
            r.update(r.len() - 1, r.last().push(s.last()))
        }
    }
}

/// `split_on` never yields an empty list.
pub proof fn lemma_split_nonempty(s: Seq<char>, c: char)
    ensures
        split_on(s, c).len() >= 1,
    decreases s.len(),
{
    if s.len() > 0 {
        lemma_split_nonempty(s.drop_last(), c);
    }
}

/// The pieces of `cs` between occurrences of `c`.
pub fn split_char(cs: &Vec<char>, c: char) -> (r: Vec<Vec<char>>)
    ensures
        r@.map_values(|v: Vec<char>| v@) == split_on(cs@, c),
{
    let mut out: Vec<Vec<char>> = Vec::new();
    let mut cur: Vec<char> = Vec::new();
    let mut i: usize = 0;
    while i < cs.len()
        invariant
            i <= cs@.len(),
            split_on(cs@.take(i as int), c) == out@.map_values(|v: Vec<char>| v@).push(cur@),
        decreases cs.len() - i,
    {
        let ghost pre = cs@.take(i as int);
        let ghost post = cs@.take(i + 1);
        assert(post.drop_last() =~= pre);
        let ghost before = out@.map_values(|v: Vec<char>| v@);
        let x = cs[i];
        if x == c {
            let done = cur;
            cur = Vec::new();
            out.push(done);
            assert(out@.map_values(|v: Vec<char>| v@) =~= before.push(done@));
            assert(split_on(post, c) =~= out@.map_values(|v: Vec<char>| v@).push(cur@));
        } else {
            let ghost old_cur = cur@;
            cur.push(x);
            assert(split_on(post, c) =~= before.push(old_cur).update(before.len() as int, old_cur.push(x)));
            assert(split_on(post, c) =~= out@.map_values(|v: Vec<char>| v@).push(cur@));
        }
        i += 1;
    }
    assert(cs@.take(cs@.len() as int) =~= cs@);
    let ghost before = out@.map_values(|v: Vec<char>| v@);
    out.push(cur);
    assert(out@.map_values(|v: Vec<char>| v@) =~= before.push(cur@));
    out
}

/// `s` with every `from` replaced by `to`.
pub open spec fn replace_char(s: Seq<char>, from: char, to: char) -> Seq<char> {
    s.map_values(|x: char| if x == from { to } else { x })
}

/// `cs` with every `from` replaced by `to`.
pub fn replace_char_exec(cs: &Vec<char>, from: char, to: char) -> (r: Vec<char>)
    ensures
        r@ == replace_char(cs@, from, to),
{
    let mut out: Vec<char> = Vec::new();
    let mut i: usize = 0;
    while i < cs.len()
        invariant
            i <= cs@.len(),
            out@ == replace_char(cs@.take(i as int), from, to),
        decreases cs.len() - i,
    {
        let x = cs[i];
        out.push(if x == from { to } else { x });
        assert(out@ =~= replace_char(cs@.take(i + 1), from, to));
        i += 1;
    }
    assert(cs@.take(cs@.len() as int) =~= cs@);
    out
}

/// The part of `s` after its last `c`, or all of it (`rsplit(c).next()`).
pub open spec fn after_last(s: Seq<char>, c: char) -> Seq<char> {
    match last_index(s, c) {
        Some(i) => s.skip(i + 1),
        None => s,
    }
}

/// The part of `s` after its last `c`, or all of it.
pub fn after_last_exec(s: &str, c: char) -> (r: String)
    ensures
        r@ == after_last(s@, c),
{
    let cs = chars_of(s);
    match rfind_char(&cs, c) {
        Some(i) => {
            let n = cs.len();
            assert(i < n);
            let tail = sub_chars(&cs, i + 1, n);
            assert(tail@ =~= cs@.skip(i + 1));
            string_of(&tail)
        },
        None => string_of(&cs),
    }
}

/// `s` with every occurrence of `p` replaced by `w`, left to right
/// (`str::replace`).
pub open spec fn replace_all(s: Seq<char>, p: Seq<char>, w: Seq<char>) -> Seq<char>
    decreases s.len(),
{
    if p.len() == 0 {
        s
    } else {
        match first_occ(s, p) {
            None => s,
            Some(i) => if 0 <= i && i + p.len() <= s.len() {
                s.take(i) + w + replace_all(s.skip(i + p.len()), p, w)
            } else {
                s
            },
        }
    }
}

/// `cs` with every occurrence of `p` replaced by `w`, left to right.
pub fn replace_all_exec(cs: &Vec<char>, p: &Vec<char>, w: &Vec<char>) -> (r: Vec<char>)
    requires
        p@.len() > 0,
    ensures
        r@ == replace_all(cs@, p@, w@),
    decreases cs@.len(),
{
    match first_occ_exec(cs, p) {
        None => sub_chars(cs, 0, cs.len()),
        Some(i) => {
            let n = cs.len();
            let head = sub_chars(cs, 0, i);
            let rest = sub_chars(cs, i + p.len(), n);
            assert(head@ =~= cs@.take(i as int));
            assert(rest@ =~= cs@.skip(i + p@.len()));
            let tail = replace_all_exec(&rest, p, w);
            let mut out = head;
            push_all(&mut out, w);
            push_all(&mut out, &tail);
            assert(cs@.take(cs@.len() as int) =~= cs@);
            out
        },
    }
}

/// The pieces of `s` between occurrences of a non-empty `p`, left to right
/// (`str::split` with a string pattern).
pub open spec fn split_pat(s: Seq<char>, p: Seq<char>) -> Seq<Seq<char>>
    decreases s.len(),
{
    if p.len() == 0 {
        seq![s]
    } else {
        match first_occ(s, p) {
            None => seq![s],
            Some(i) => if 0 <= i && i + p.len() <= s.len() {
                seq![s.take(i)] + split_pat(s.skip(i + p.len()), p)
            } else {
                seq![s]
            },
        }
    }
}

/// The pieces of `cs` between occurrences of a non-empty `p`.
pub fn split_pat_exec(cs: &Vec<char>, p: &Vec<char>) -> (r: Vec<Vec<char>>)
    requires
        p@.len() > 0,
    ensures
        r@.map_values(|v: Vec<char>| v@) == split_pat(cs@, p@),
    decreases cs@.len(),
{
    match first_occ_exec(cs, p) {
        None => {
            let mut r: Vec<Vec<char>> = Vec::new();
            r.push(sub_chars(cs, 0, cs.len()));
            assert(cs@.take(cs@.len() as int) =~= cs@);
            assert(r@.map_values(|v: Vec<char>| v@) =~= seq![cs@]);
            r
        },
        Some(i) => {
            let n = cs.len();
            let head = sub_chars(cs, 0, i);
            let rest = sub_chars(cs, i + p.len(), n);
            assert(head@ =~= cs@.take(i as int));
            assert(rest@ =~= cs@.skip(i + p@.len()));
            let tail = split_pat_exec(&rest, p);
            let mut r: Vec<Vec<char>> = Vec::new();
            r.push(head);
            let ghost first = r@.map_values(|v: Vec<char>| v@);
            let mut tail = tail;
            let ghost tv = tail@.map_values(|v: Vec<char>| v@);
            // Move the tail's pieces over in order.
            while tail.len() > 0
                invariant
                    tv == split_pat(cs@.skip(i + p@.len()), p@),
                    r@.map_values(|v: Vec<char>| v@) + tail@.map_values(|v: Vec<char>| v@) == first + tv,
                decreases tail@.len(),
            {
                let ghost rest_before = tail@.map_values(|v: Vec<char>| v@);
                let piece = tail.remove(0);
                let ghost before = r@.map_values(|v: Vec<char>| v@);
                assert(rest_before =~= seq![piece@] + tail@.map_values(|v: Vec<char>| v@));
                r.push(piece);
                assert(r@.map_values(|v: Vec<char>| v@) =~= before.push(piece@));
                assert(r@.map_values(|v: Vec<char>| v@) + tail@.map_values(|v: Vec<char>| v@) =~= before
                    + rest_before);
            }
            assert(tail@.map_values(|v: Vec<char>| v@) =~= Seq::<Seq<char>>::empty());
            assert(r@.map_values(|v: Vec<char>| v@) =~= first + tv);
            assert(first =~= seq![cs@.take(i as int)]);
            r
        },
    }
}

} // verus!
