//! Character-sequence helpers shared by the naming and path rules.

use vstd::prelude::*;

verus! {

/// `String::push` appends one character at the end.
pub assume_specification[ String::push ](s: &mut String, ch: char)
    ensures
        final(s)@ == old(s)@.push(ch),
;

/// The characters of `s`, in order.
pub fn chars_of(s: &str) -> (v: Vec<char>)
    ensures
        v@ == s@,
{
    let mut v: Vec<char> = Vec::new();
    for c in it: s.chars()
        invariant
            it.seq() == s@,
            v@ == it.seq().take(it.index() as int),
    {
        v.push(c);
    }
    v
}

/// A string holding exactly the characters of `v`.
pub fn string_of(v: &Vec<char>) -> (s: String)
    ensures
        s@ == v@,
{
    let mut s = String::new();
    let mut i: usize = 0;
    while i < v.len()
        invariant
            i <= v.len(),
            s@ == v@.take(i as int),
        decreases v.len() - i,
    {
        s.push(v[i]);
        i += 1;
        assert(v@.take(i as int) == v@.take((i - 1) as int).push(v@[i - 1]));
    }
    assert(v@.take(v.len() as int) == v@);
    s
}

/// Appends all of `src` to `dst`.
pub fn append_chars(dst: &mut Vec<char>, src: &Vec<char>)
    ensures
        final(dst)@ == old(dst)@ + src@,
{
    let ghost start = dst@;
    let mut i: usize = 0;
    while i < src.len()
        invariant
            i <= src.len(),
            dst@ == start + src@.take(i as int),
        decreases src.len() - i,
    {
        dst.push(src[i]);
        i += 1;
        assert(src@.take(i as int) == src@.take((i - 1) as int).push(src@[i - 1]));
    }
    assert(src@.take(src.len() as int) == src@);
}

/// The characters of `s` from index `from` (inclusive) to `to` (exclusive).
pub fn sub_chars(s: &Vec<char>, from: usize, to: usize) -> (r: Vec<char>)
    requires
        from <= to <= s.len(),
    ensures
        r@ == s@.subrange(from as int, to as int),
{
    let mut r: Vec<char> = Vec::new();
    let mut i: usize = from;
    while i < to
        invariant
            from <= i <= to <= s.len(),
            r@ == s@.subrange(from as int, i as int),
        decreases to - i,
    {
        r.push(s[i]);
        i += 1;
        assert(s@.subrange(from as int, i as int) == s@.subrange(from as int, (i - 1) as int).push(
            s@[i - 1],
        ));
    }
    r
}

/// Whether two character vectors hold the same characters.
pub fn chars_equal(a: &Vec<char>, b: &Vec<char>) -> (r: bool)
    ensures
        r == (a@ == b@),
{
    if a.len() != b.len() {
        return false;
    }
    let mut i: usize = 0;
    while i < a.len()
        invariant
            i <= a.len() == b.len(),
            forall|k: int| 0 <= k < i ==> a@[k] == b@[k],
        decreases a.len() - i,
    {
        if a[i] != b[i] {
            return false;
        }
        i += 1;
    }
    assert(a@ =~= b@);
    true
}

/// Whether the characters of `a` spell the string `b`.
pub fn chars_equal_str(a: &Vec<char>, b: &str) -> (r: bool)
    ensures
        r == (a@ == b@),
{
    let bv = chars_of(b);
    chars_equal(a, &bv)
}

/// `i` is the first position of `c` in `s`.
pub open spec fn is_first(s: Seq<char>, c: char, i: int) -> bool {
    &&& 0 <= i < s.len()
    &&& s[i] == c
    &&& forall|k: int| 0 <= k < i ==> s[k] != c
}

/// Whether `c` occurs in `s`.
pub open spec fn occurs(s: Seq<char>, c: char) -> bool {
    exists|i: int| 0 <= i < s.len() && s[i] == c
}

/// The first position of `c` in `s`, if it occurs.
pub open spec fn first_pos(s: Seq<char>, c: char) -> Option<int> {
    if occurs(s, c) {
        Some(choose|i: int| is_first(s, c, i))
    } else {
        None
    }
}

/// The first occurrence is unique, and it exists whenever `c` occurs.
pub proof fn lemma_first_pos(s: Seq<char>, c: char, i: int)
    requires
        is_first(s, c, i),
    ensures
        first_pos(s, c) == Some(i),
{
    assert(occurs(s, c));
    let j = choose|j: int| is_first(s, c, j);
    assert(is_first(s, c, j)) by {
        lemma_first_exists(s, c);
    }
    if j < i {
        assert(s[j] != c);
    }
    if i < j {
        assert(s[i] != c);
    }
}

/// Some position is the first one whenever `c` occurs.
pub proof fn lemma_first_exists(s: Seq<char>, c: char)
    requires
        occurs(s, c),
    ensures
        exists|i: int| is_first(s, c, i),
    decreases s.len(),
{
    let w = choose|w: int| 0 <= w < s.len() && s[w] == c;
    if s[0] == c {
        assert(is_first(s, c, 0));
    } else {
        let t = s.skip(1);
        assert(t[w - 1] == c);
        lemma_first_exists(t, c);
        let k = choose|k: int| is_first(t, c, k);
        assert forall|m: int| 0 <= m < k + 1 implies s[m] != c by {
            if m > 0 {
                assert(s[m] == t[m - 1]);
            }
        }
        assert(is_first(s, c, k + 1));
    }
}

/// The first position of `c` in `s` at or after `from`, as an index of `s`.
pub fn find_from(s: &Vec<char>, from: usize, c: char) -> (r: Option<usize>)
    requires
        from <= s.len(),
    ensures
        match first_pos(s@.skip(from as int), c) {
            Some(i) => r == Some((i + from) as usize),
            None => r is None,
        },
        match r {
            Some(k) => from <= k < s.len() && s@[k as int] == c && is_first(
                s@.skip(from as int),
                c,
                k - from,
            ),
            None => !occurs(s@.skip(from as int), c),
        },
{
    let ghost t = s@.skip(from as int);
    let mut j: usize = from;
    while j < s.len()
        invariant
            from <= j <= s.len(),
            t == s@.skip(from as int),
            forall|k: int| from <= k < j ==> s@[k] != c,
        decreases s.len() - j,
    {
        if s[j] == c {
            proof {
                assert(is_first(t, c, j - from));
                lemma_first_pos(t, c, j - from);
            }
            return Some(j);
        }
        j += 1;
    }
    assert(!occurs(t, c)) by {
        if occurs(t, c) {
            let w = choose|w: int| 0 <= w < t.len() && t[w] == c;
            assert(s@[w + from] == c);
        }
    }
    None
}

/// An ASCII decimal digit.
pub open spec fn is_digit(c: char) -> bool {
    '0' <= c <= '9'
}

/// The value of an ASCII decimal digit.
pub open spec fn digit_value(c: char) -> int {
    c as int - '0' as int
}

/// The digit character for `d` in `0..10`.
pub open spec fn digit_char(d: int) -> char {
    ((d + '0' as int) as u32) as char
}

/// The numeric value of a run of decimal digits.
pub open spec fn digits_value(s: Seq<char>) -> int
    decreases s.len(),
{
    if s.len() == 0 {
        0
    } else {
        digits_value(s.drop_last()) * 10 + digit_value(s.last())
    }
}

/// All characters of `s` are decimal digits.
pub open spec fn all_digits(s: Seq<char>) -> bool {
    forall|i: int| 0 <= i < s.len() ==> is_digit(#[trigger] s[i])
}

/// What `str::parse` gives for an unsigned integer type whose largest value is `max`:
/// an optional leading `+`, then at least one decimal digit, with a value not above `max`.
pub open spec fn parse_unsigned(s: Seq<char>, max: int) -> Option<int> {
    let digits = if s.len() > 0 && s[0] == '+' {
        s.skip(1)
    } else {
        s
    };
    if digits.len() > 0 && all_digits(digits) && digits_value(digits) <= max {
        Some(digits_value(digits))
    } else {
        None
    }
}

proof fn lemma_digits_value_grows(s: Seq<char>, k: int)
    requires
        0 <= k <= s.len(),
        all_digits(s),
    ensures
        digits_value(s.take(k)) <= digits_value(s),
        digits_value(s) >= 0,
    decreases s.len() - k,
{
    if k < s.len() {
        lemma_digits_value_grows(s, k + 1);
        assert(s.take(k + 1).drop_last() == s.take(k));
        lemma_digits_value_nonneg(s.take(k));
    } else {
        assert(s.take(k) == s);
        lemma_digits_value_nonneg(s);
    }
}

proof fn lemma_digits_value_nonneg(s: Seq<char>)
    requires
        all_digits(s),
    ensures
        digits_value(s) >= 0,
    decreases s.len(),
{
    if s.len() > 0 {
        lemma_digits_value_nonneg(s.drop_last());
    }
}

/// Parses an unsigned decimal number that must not exceed `max`, as `str::parse` does for
/// `u32` (with `max` = `u32::MAX`) and `usize` (with `max` = `usize::MAX`).
pub fn parse_unsigned_chars(s: &Vec<char>, max: u64) -> (r: Option<u64>)
    requires
        max >= 9,
    ensures
        match parse_unsigned(s@, max as int) {
            Some(v) => r == Some(v as u64) && 0 <= v <= max,
            None => r is None,
        },
{
    let start: usize = if s.len() > 0 && s[0] == '+' {
        1
    } else {
        0
    };
    let ghost digits = if s@.len() > 0 && s@[0] == '+' {
        s@.skip(1)
    } else {
        s@
    };
    assert(digits == s@.skip(start as int));
    if start >= s.len() {
        return None;
    }
    let mut acc: u64 = 0;
    let mut i: usize = start;
    while i < s.len()
        invariant
            start <= i <= s.len(),
            start < s.len(),
            digits == s@.skip(start as int),
            digits == (if s@.len() > 0 && s@[0] == '+' {
                s@.skip(1)
            } else {
                s@
            }),
            max >= 9,
            all_digits(digits.take(i - start)),
            acc as int == digits_value(digits.take(i - start)),
            acc <= max,
        decreases s.len() - i,
    {
        let c = s[i];
        assert(c == digits[i - start]);
        if !('0' <= c && c <= '9') {
            assert(!is_digit(digits[i - start]));
            assert(!all_digits(digits));
            assert(parse_unsigned(s@, max as int) is None);
            return None;
        }
        let d: u64 = (c as u32 - '0' as u32) as u64;
        assert(digits.take(i + 1 - start).drop_last() == digits.take(i - start));
        assert(all_digits(digits.take(i + 1 - start)));
        if acc > (max - d) / 10 {
            proof {
                assert(acc * 10 + d > max) by (nonlinear_arith)
                    requires
                        acc > (max - d) / 10,
                        d <= max,
                ;
                lemma_value_overflow(digits, i + 1 - start, max as int);
            }
            return None;
        }
        assert(acc * 10 + d <= max) by (nonlinear_arith)
            requires
                acc <= (max - d) / 10,
                d <= 9,
        ;
        acc = acc * 10 + d;
        i += 1;
    }
    assert(digits.take(i - start) == digits);
    proof {
        lemma_digits_value_nonneg(digits);
    }
    Some(acc)
}

proof fn lemma_value_overflow(digits: Seq<char>, k: int, max: int)
    requires
        0 <= k <= digits.len(),
        all_digits(digits.take(k)),
        digits_value(digits.take(k)) > max,
    ensures
        parse_unsigned_digits_fail(digits, max),
{
    if all_digits(digits) {
        lemma_digits_value_grows(digits, k);
    }
}

/// `digits` is not a run of decimal digits with a value not above `max`.
pub open spec fn parse_unsigned_digits_fail(digits: Seq<char>, max: int) -> bool {
    !(all_digits(digits) && digits_value(digits) <= max)
}

/// The decimal digits of a natural number, most significant first, without leading zeros.
pub open spec fn decimal(n: nat) -> Seq<char>
    decreases n,
{
    if n < 10 {
        seq![digit_char(n as int)]
    } else {
        decimal(n / 10).push(digit_char((n % 10) as int))
    }
}

/// What `to_string` gives for a signed integer: a minus sign for negative values.
pub open spec fn decimal_signed(n: int) -> Seq<char> {
    if n < 0 {
        seq!['-'] + decimal((-n) as nat)
    } else {
        decimal(n as nat)
    }
}

/// The decimal digits of `n`, as `u64::to_string` writes them.
pub fn decimal_chars(n: u64) -> (r: Vec<char>)
    ensures
        r@ == decimal(n as nat),
    decreases n,
{
    let d = ((n % 10) as u32 + '0' as u32) as u8 as char;
    assert(d == digit_char((n % 10) as int)) by {
        assert(((n % 10) as u32 + '0' as u32) < 128);
    }
    if n < 10 {
        let mut v = Vec::new();
        v.push(d);
        assert(v@ == seq![d]);
        v
    } else {
        let mut v = decimal_chars(n / 10);
        v.push(d);
        v
    }
}

/// The decimal text of a signed 32-bit value, as `i32::to_string` writes it.
pub fn decimal_chars_i32(n: i32) -> (r: Vec<char>)
    ensures
        r@ == decimal_signed(n as int),
{
    if n < 0 {
        let magnitude: u64 = (-(n as i64)) as u64;
        let digits = decimal_chars(magnitude);
        let mut v = Vec::new();
        v.push('-');
        append_chars(&mut v, &digits);
        assert(v@ == seq!['-'] + digits@);
        v
    } else {
        decimal_chars(n as u64)
    }
}

/// `d` left-padded with zeros to at least `width` characters.
pub open spec fn zero_padded(d: Seq<char>, width: nat) -> Seq<char> {
    if d.len() >= width {
        d
    } else {
        Seq::new((width - d.len()) as nat, |i: int| '0') + d
    }
}

/// `d` left-padded with zeros to at least `width` characters.
pub fn zero_pad(d: &Vec<char>, width: u64) -> (r: Vec<char>)
    ensures
        r@ == zero_padded(d@, width as nat),
{
    if d.len() as u64 >= width {
        return d.clone();
    }
    let fill: u64 = width - d.len() as u64;
    let mut v: Vec<char> = Vec::new();
    let mut i: u64 = 0;
    while i < fill
        invariant
            i <= fill,
            v@ == Seq::new(i as nat, |k: int| '0'),
        decreases fill - i,
    {
        v.push('0');
        i += 1;
        assert(v@ =~= Seq::new(i as nat, |k: int| '0'));
    }
    append_chars(&mut v, d);
    v
}

/// ASCII upper-casing of one character, as `char::to_ascii_uppercase` does.
pub open spec fn ascii_upper(c: char) -> char {
    if 'a' <= c <= 'z' {
        ((c as u32) - 32) as char
    } else {
        c
    }
}

/// ASCII upper-casing of one character.
pub fn ascii_upper_char(c: char) -> (r: char)
    ensures
        r == ascii_upper(c),
{
    if 'a' <= c && c <= 'z' {
        ((c as u8) - 32) as char
    } else {
        c
    }
}

/// `s` without all trailing characters for which `strip` holds.
pub open spec fn trim_end_by(s: Seq<char>, strip: spec_fn(char) -> bool) -> Seq<char>
    decreases s.len(),
{
    if s.len() > 0 && strip(s.last()) {
        trim_end_by(s.drop_last(), strip)
    } else {
        s
    }
}

/// Space or full stop: what Windows drops at the end of a path component.
pub open spec fn is_space_or_dot(c: char) -> bool {
    c == ' ' || c == '.'
}

/// `s` with trailing spaces and full stops removed, as `trim_end_matches([' ', '.'])` does.
pub open spec fn trim_end_space_dot(s: Seq<char>) -> Seq<char> {
    trim_end_by(s, |c: char| is_space_or_dot(c))
}

/// The number of characters kept by `trim_end_space_dot`.
pub fn trimmed_end_len(s: &Vec<char>) -> (n: usize)
    ensures
        n <= s.len(),
        s@.take(n as int) == trim_end_space_dot(s@),
{
    let mut n = s.len();
    assert(s@.take(n as int) == s@);
    while n > 0 && (s[n - 1] == ' ' || s[n - 1] == '.')
        invariant
            n <= s.len(),
            trim_end_space_dot(s@.take(n as int)) == trim_end_space_dot(s@),
        decreases n,
    {
        assert(s@.take(n as int).drop_last() == s@.take(n - 1));
        n -= 1;
    }
    n
}

/// The characters of an optional text.
pub open spec fn opt_chars(s: Option<String>) -> Option<Seq<char>> {
    match s {
        Some(t) => Some(t@),
        None => None,
    }
}

/// `s` without all leading spaces and full stops.
pub open spec fn trim_start_space_dot(s: Seq<char>) -> Seq<char>
    decreases s.len(),
{
    if s.len() > 0 && is_space_or_dot(s[0]) {
        trim_start_space_dot(s.skip(1))
    } else {
        s
    }
}

/// `s` without leading and trailing spaces and full stops, as `trim_matches([' ', '.'])`
/// does.
pub open spec fn trim_space_dot(s: Seq<char>) -> Seq<char> {
    trim_end_space_dot(trim_start_space_dot(s))
}

/// The characters of `s` without leading and trailing spaces and full stops.
pub fn trim_space_dot_chars(s: &Vec<char>) -> (r: Vec<char>)
    ensures
        r@ == trim_space_dot(s@),
{
    let mut start: usize = 0;
    assert(s@.skip(0) == s@);
    while start < s.len() && (s[start] == ' ' || s[start] == '.')
        invariant
            start <= s.len(),
            trim_start_space_dot(s@.skip(start as int)) == trim_start_space_dot(s@),
        decreases s.len() - start,
    {
        assert(s@.skip(start as int).skip(1) == s@.skip(start + 1));
        start += 1;
    }
    let rest = sub_chars(s, start, s.len());
    assert(rest@ == s@.skip(start as int));
    let keep = trimmed_end_len(&rest);
    sub_chars(&rest, 0, keep)
}

/// ASCII lower-casing of one character, as `char::to_ascii_lowercase` does.
pub open spec fn ascii_lower(c: char) -> char {
    if 'A' <= c <= 'Z' {
        ((c as u32) + 32) as char
    } else {
        c
    }
}

/// ASCII lower-casing of one character.
pub fn ascii_lower_char(c: char) -> (r: char)
    ensures
        r == ascii_lower(c),
{
    if 'A' <= c && c <= 'Z' {
        ((c as u8) + 32) as char
    } else {
        c
    }
}

/// ASCII lower-casing of a text, as `str::to_ascii_lowercase` does.
pub open spec fn ascii_lowercase(s: Seq<char>) -> Seq<char> {
    s.map_values(|c: char| ascii_lower(c))
}

/// The characters of `s` lower-cased in the ASCII range.
pub fn ascii_lowercase_chars(s: &Vec<char>) -> (r: Vec<char>)
    ensures
        r@ == ascii_lowercase(s@),
{
    let mut r: Vec<char> = Vec::new();
    let mut i: usize = 0;
    while i < s.len()
        invariant
            i <= s.len(),
            r@ == s@.take(i as int).map_values(|c: char| ascii_lower(c)),
        decreases s.len() - i,
    {
        r.push(ascii_lower_char(s[i]));
        i += 1;
        assert(s@.take(i as int).map_values(|c: char| ascii_lower(c)) =~= s@.take(
            (i - 1) as int,
        ).map_values(|c: char| ascii_lower(c)).push(ascii_lower(s@[i - 1])));
    }
    assert(s@.take(s.len() as int) == s@);
    r
}

} // verus!
