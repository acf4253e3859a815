//! Character sequences: searching, splitting and trimming.

use vstd::prelude::*;

verus! {

/// `pat` occurs in `s` starting at position `at`.
pub open spec fn occurs_at(s: Seq<char>, pat: Seq<char>, at: int) -> bool {
    &&& 0 <= at
    &&& at + pat.len() <= s.len()
    &&& s.subrange(at, at + pat.len()) == pat
}

/// `pat` occurs somewhere in `s`.
pub open spec fn contains_text(s: Seq<char>, pat: Seq<char>) -> bool {
    exists|at: int| occurs_at(s, pat, at)
}

/// `s` begins with `pat`.
pub open spec fn starts_with_text(s: Seq<char>, pat: Seq<char>) -> bool {
    occurs_at(s, pat, 0)
}

/// `s` ends with `pat`.
pub open spec fn ends_with_text(s: Seq<char>, pat: Seq<char>) -> bool {
    occurs_at(s, pat, s.len() - pat.len())
}

/// The characters of a string slice, in order.
pub fn chars_of(s: &str) -> (v: Vec<char>)
    ensures
        v@ == s@,
{
    let mut v: Vec<char> = Vec::new();
    for c in it: s.chars()
        invariant
            v@ == it.seq().take(it.index() as int),
            it.seq() == s@,
    {
        v.push(c);
    }
    v
}

/// Whether two string slices hold the same characters.
pub fn same_text(a: &str, b: &str) -> (r: bool)
    ensures
        r == (a@ == b@),
{
    let x = chars_of(a);
    let y = chars_of(b);
    same_chars(&x, &y)
}

/// Whether two character lists are equal.
pub fn same_chars(a: &Vec<char>, b: &Vec<char>) -> (r: bool)
    ensures
        r == (a@ == b@),
{
    if a.len() != b.len() {
        return false;
    }
    let mut i: usize = 0;
    while i < a.len()
        invariant
            i <= a.len(),
            a.len() == b.len(),
            forall|k: int| 0 <= k < i ==> a[k] == b[k],
        decreases a.len() - i,
    {
        if a[i] != b[i] {
            return false;
        }
        i += 1;
    }
    assert(a@ =~= b@);
    true
}

/// A string holding the given characters.
///
/// Trusted: collects the characters with `String::from_iter`, which keeps
/// each character and their order.
#[verifier::external_body]
pub(crate) fn text_of(v: &Vec<char>) -> (r: String)
    ensures
        r@ == v@,
{
    v.iter().collect()
}

/// Appends the characters of `src` to `dst`.
pub fn append_chars(dst: &mut Vec<char>, src: &Vec<char>)
    ensures
        final(dst)@ == old(dst)@ + src@,
{
    let mut i: usize = 0;
    while i < src.len()
        invariant
            i <= src.len(),
            dst@ == old(dst)@ + src@.take(i as int),
        decreases src.len() - i,
    {
        dst.push(src[i]);
        i += 1;
    }
}

/// The characters of `s` from position `from` up to, not including, `to`.
pub fn slice_chars(s: &Vec<char>, from: usize, to: usize) -> (r: Vec<char>)
    requires
        from <= to <= s.len(),
    ensures
        r@ == s@.subrange(from as int, to as int),
{
    let mut r: Vec<char> = Vec::new();
    let mut i: usize = from;
    while i < to
        invariant
            from <= i <= to <= s.len(),
            r@ == s@.subrange(from as int, i as int),
        decreases to - i,
    {
        r.push(s[i]);
        i += 1;
    }
    r
}

/// Whether `pat` occurs in `s` at position `at`.
pub fn occurs(s: &Vec<char>, pat: &Vec<char>, at: usize) -> (r: bool)
    ensures
        r == occurs_at(s@, pat@, at as int),
{
    if at > s.len() || pat.len() > s.len() - at {
        return false;
    }
    let mut i: usize = 0;
    while i < pat.len()
        invariant
            i <= pat.len(),
            at + pat.len() <= s.len(),
            forall|k: int| 0 <= k < i ==> s[at + k] == pat[k],
        decreases pat.len() - i,
    {
        if s[at + i] != pat[i] {
            assert(s@.subrange(at as int, at + pat.len())[i as int] == s[at + i]);
            return false;
        }
        i += 1;
    }
    assert(s@.subrange(at as int, at + pat.len()) =~= pat@);
    true
}

/// Whether `s` begins with `pat`.
pub fn starts_with(s: &Vec<char>, pat: &Vec<char>) -> (r: bool)
    ensures
        r == starts_with_text(s@, pat@),
{
    occurs(s, pat, 0)
}

/// Whether `s` ends with `pat`.
pub fn ends_with(s: &Vec<char>, pat: &Vec<char>) -> (r: bool)
    ensures
        r == ends_with_text(s@, pat@),
{
    if pat.len() > s.len() {
        return false;
    }
    occurs(s, pat, s.len() - pat.len())
}

/// Whether `pat` occurs somewhere in `s`.
pub fn contains(s: &Vec<char>, pat: &Vec<char>) -> (r: bool)
    ensures
        r == contains_text(s@, pat@),
{
    if pat.len() > s.len() {
        return false;
    }
    let last: usize = s.len() - pat.len();
    let mut i: usize = 0;
    loop
        invariant
            i <= last,
            last == s.len() - pat.len(),
            forall|k: int| 0 <= k < i ==> !occurs_at(s@, pat@, k),
        decreases last - i,
    {
        if occurs(s, pat, i) {
            return true;
        }
        if i == last {
            return false;
        }
        i += 1;
    }
}

/// Whether the string `s` contains the string `pat`.
pub fn str_contains(s: &str, pat: &str) -> (r: bool)
    ensures
        r == contains_text(s@, pat@),
{
    let a = chars_of(s);
    let b = chars_of(pat);
    contains(&a, &b)
}

/// Whether the string `s` ends with the string `pat`.
pub fn str_ends_with(s: &str, pat: &str) -> (r: bool)
    ensures
        r == ends_with_text(s@, pat@),
{
    let a = chars_of(s);
    let b = chars_of(pat);
    ends_with(&a, &b)
}

/// The last position at which `pat` occurs in `s`, if it occurs at all.
pub open spec fn last_occurrence(s: Seq<char>, pat: Seq<char>) -> Option<int> {
    if contains_text(s, pat) {
        Some(choose|at: int| is_last_occurrence(s, pat, at))
    } else {
        None
    }
}

/// `pat` occurs in `s` at `at` and at no later position.
pub open spec fn is_last_occurrence(s: Seq<char>, pat: Seq<char>, at: int) -> bool {
    &&& occurs_at(s, pat, at)
    &&& forall|k: int| at < k ==> !occurs_at(s, pat, k)
}

/// Finds the last position at which `pat` occurs in `s`.
pub fn find_last(s: &Vec<char>, pat: &Vec<char>) -> (r: Option<usize>)
    ensures
        r matches Some(at) ==> is_last_occurrence(s@, pat@, at as int),
        r is None ==> !contains_text(s@, pat@),
        match r {
            Some(at) => last_occurrence(s@, pat@) == Some(at as int),
            None => last_occurrence(s@, pat@) is None,
        },
{
    if pat.len() > s.len() {
        return None;
    }
    let mut i: usize = s.len() - pat.len();
    loop
        invariant
            i <= s.len() - pat.len(),
            pat.len() <= s.len(),
            forall|k: int| i < k ==> !occurs_at(s@, pat@, k),
        decreases i,
    {
        if occurs(s, pat, i) {
            proof {
                let at = i as int;
                assert(is_last_occurrence(s@, pat@, at));
                let c = choose|c: int| is_last_occurrence(s@, pat@, c);
                assert(c == at);
            }
            return Some(i);
        }
        if i == 0 {
            return None;
        }
        i -= 1;
    }
}

/// The first position of `c` in `s`, or the length of `s` where `c` does not
/// occur.
pub open spec fn first_index(s: Seq<char>, c: char) -> int
    decreases s.len(),
{
    if s.len() == 0 || s[0] == c {
        0
    } else {
        1 + first_index(s.skip(1), c)
    }
}

/// `first_index` is the least position that holds `c`.
pub proof fn lemma_first_index(s: Seq<char>, c: char)
    ensures
        0 <= first_index(s, c) <= s.len(),
        first_index(s, c) < s.len() ==> s[first_index(s, c)] == c,
        forall|k: int| 0 <= k < first_index(s, c) ==> s[k] != c,
    decreases s.len(),
{
    if s.len() == 0 || s[0] == c {
    } else {
        lemma_first_index(s.skip(1), c);
        assert forall|k: int| 0 <= k < first_index(s, c) implies s[k] != c by {
            if k > 0 {
                assert(s.skip(1)[k - 1] == s[k]);
            }
        }
    }
}

/// The first position of `c` in `s` at or after `from`, or the length of `s`.
pub fn find_char(s: &Vec<char>, c: char, from: usize) -> (r: usize)
    requires
        from <= s.len(),
    ensures
        from <= r <= s.len(),
        r - from == first_index(s@.skip(from as int), c),
{
    let mut i: usize = from;
    while i < s.len()
        invariant
            from <= i <= s.len(),
            first_index(s@.skip(from as int), c) == (i - from) + first_index(s@.skip(i as int), c),
        decreases s.len() - i,
    {
        if s[i] == c {
            return i;
        }
        assert(s@.skip(i as int).skip(1) =~= s@.skip(i + 1));
        i += 1;
    }
    i
}

/// The pieces of `s` between occurrences of `sep`. There is always at least
/// one piece; pieces may be empty.
pub open spec fn split_text(s: Seq<char>, sep: char) -> Seq<Seq<char>>
    decreases s.len(),
{
    let i = first_index(s, sep);
    if 0 <= i < s.len() {
        seq![s.take(i)] + split_text(s.skip(i + 1), sep)
    } else {
        seq![s]
    }
}

/// The texts that a list of character lists holds.
pub open spec fn texts_of(v: Seq<Vec<char>>) -> Seq<Seq<char>> {
    v.map_values(|x: Vec<char>| x@)
}

/// Splits `s` at every occurrence of `sep`.
pub fn split_on(s: &Vec<char>, sep: char) -> (parts: Vec<Vec<char>>)
    ensures
        texts_of(parts@) == split_text(s@, sep),
{
    let mut parts: Vec<Vec<char>> = Vec::new();
    let mut start: usize = 0;
    assert(s@.skip(0) =~= s@);
    assert(texts_of(parts@) + split_text(s@, sep) =~= split_text(s@, sep));
    loop
        invariant
            start <= s.len(),
            texts_of(parts@) + split_text(s@.skip(start as int), sep) == split_text(s@, sep),
        decreases s.len() - start,
    {
        let i = find_char(s, sep, start);
        let ghost rest = s@.skip(start as int);
        let ghost before = texts_of(parts@);
        proof {
            lemma_first_index(rest, sep);
        }
        if i == s.len() {
            parts.push(slice_chars(s, start, i));
            proof {
                assert(s@.subrange(start as int, i as int) =~= rest);
                assert(texts_of(parts@) =~= before + seq![rest]);
            }
            return parts;
        }
        parts.push(slice_chars(s, start, i));
        proof {
            assert(s@.subrange(start as int, i as int) =~= rest.take(i - start));
            assert(rest.skip(i - start + 1) =~= s@.skip(i + 1));
            assert(texts_of(parts@) =~= before + seq![rest.take(i - start)]);
            assert(before + (seq![rest.take(i - start)] + split_text(s@.skip(i + 1), sep))
                =~= (before + seq![rest.take(i - start)]) + split_text(s@.skip(i + 1), sep));
        }
        start = i + 1;
    }
}

/// `s` with every occurrence of `pat` removed, scanning from the left and
/// never reusing a character of one occurrence for another.
pub open spec fn remove_all(s: Seq<char>, pat: Seq<char>) -> Seq<char>
    decreases s.len(),
{
    if pat.len() == 0 || s.len() < pat.len() {
        s
    } else if occurs_at(s, pat, 0) {
        remove_all(s.skip(pat.len() as int), pat)
    } else {
        seq![s[0]] + remove_all(s.skip(1), pat)
    }
}

/// Removes every occurrence of `pat` from `s`.
pub fn remove_every(s: &Vec<char>, pat: &Vec<char>) -> (r: Vec<char>)
    ensures
        r@ == remove_all(s@, pat@),
{
    if pat.len() == 0 {
        return slice_chars(s, 0, s.len());
    }
    let mut r: Vec<char> = Vec::new();
    let mut i: usize = 0;
    assert(s@.skip(0) =~= s@);
    assert(r@ + remove_all(s@, pat@) =~= remove_all(s@, pat@));
    while i < s.len()
        invariant
            i <= s.len(),
            pat.len() > 0,
            r@ + remove_all(s@.skip(i as int), pat@) == remove_all(s@, pat@),
        decreases s.len() - i,
    {
        let ghost rest = s@.skip(i as int);
        let ghost before = r@;
        if occurs(s, pat, i) {
            proof {
                assert(rest.subrange(0, pat.len() as int) =~= s@.subrange(
                    i as int,
                    i + pat.len(),
                ));
                assert(rest.skip(pat.len() as int) =~= s@.skip(i + pat.len()));
            }
            i += pat.len();
        } else {
            proof {
                if rest.len() >= pat.len() {
                    assert(rest.subrange(0, pat.len() as int) =~= s@.subrange(
                        i as int,
                        i + pat.len(),
                    ));
                }
            }
            if s.len() - i < pat.len() {
                let tail = slice_chars(s, i, s.len());
                append_chars(&mut r, &tail);
                proof {
                    assert(s@.subrange(i as int, s.len() as int) =~= rest);
                }
                return r;
            }
            r.push(s[i]);
            proof {
                assert(rest.skip(1) =~= s@.skip(i + 1));
                assert(r@ =~= before + seq![rest[0]]);
                assert(before + (seq![rest[0]] + remove_all(rest.skip(1), pat@)) =~= (before
                    + seq![rest[0]]) + remove_all(rest.skip(1), pat@));
            }
            i += 1;
        }
    }
    proof {
        assert(s@.skip(i as int).len() == 0);
        assert(r@ + remove_all(s@.skip(i as int), pat@) =~= r@);
    }
    r
}

/// Whether a character is white space, as Unicode defines it by the
/// property `White_Space`: the controls from tab to carriage return, the
/// space, the next-line control, the no-break spaces, the spaces of fixed
/// width, the line and paragraph separators, and the ideographic space.
pub open spec fn is_space(c: char) -> bool {
    let n = c as int;
    ||| 0x09 <= n <= 0x0D
    ||| n == 0x20
    ||| n == 0x85
    ||| n == 0xA0
    ||| n == 0x1680
    ||| 0x2000 <= n <= 0x200A
    ||| n == 0x2028
    ||| n == 0x2029
    ||| n == 0x202F
    ||| n == 0x205F
    ||| n == 0x3000
}

/// Whether `c` is white space.
pub fn char_is_space(c: char) -> (r: bool)
    ensures
        r == is_space(c),
{
    let n: u32 = c as u32;
    (0x09 <= n && n <= 0x0D) || n == 0x20 || n == 0x85 || n == 0xA0 || n == 0x1680 || (0x2000 <= n
        && n <= 0x200A) || n == 0x2028 || n == 0x2029 || n == 0x202F || n == 0x205F || n
        == 0x3000
}

/// `s` without its leading white space.
pub open spec fn trim_start_text(s: Seq<char>) -> Seq<char>
    decreases s.len(),
{
    if s.len() > 0 && is_space(s[0]) {
        trim_start_text(s.skip(1))
    } else {
        s
    }
}

/// `s` without its trailing white space.
pub open spec fn trim_end_text(s: Seq<char>) -> Seq<char>
    decreases s.len(),
{
    if s.len() > 0 && is_space(s.last()) {
        trim_end_text(s.drop_last())
    } else {
        s
    }
}

/// `s` without leading and trailing white space.
pub open spec fn trim_text(s: Seq<char>) -> Seq<char> {
    trim_end_text(trim_start_text(s))
}

/// Removes leading and trailing white space.
pub fn trim(s: &Vec<char>) -> (r: Vec<char>)
    ensures
        r@ == trim_text(s@),
{
    let mut from: usize = 0;
    assert(s@.skip(0) =~= s@);
    while from < s.len() && char_is_space(s[from])
        invariant
            from <= s.len(),
            trim_start_text(s@) == trim_start_text(s@.skip(from as int)),
        decreases s.len() - from,
    {
        assert(s@.skip(from as int).skip(1) =~= s@.skip(from + 1));
        from += 1;
    }
    let mut to: usize = s.len();
    assert(s@.subrange(from as int, to as int) =~= s@.skip(from as int));
    while to > from && char_is_space(s[to - 1])
        invariant
            from <= to <= s.len(),
            trim_text(s@) == trim_end_text(s@.subrange(from as int, to as int)),
        decreases to,
    {
        assert(s@.subrange(from as int, to as int).drop_last() =~= s@.subrange(
            from as int,
            to - 1,
        ));
        to -= 1;
    }
    slice_chars(s, from, to)
}

/// The upper-case form of a text. The standard library decides.
pub uninterp spec fn uppercase_text(s: Seq<char>) -> Seq<char>;

/// The upper-case form of `s`.
///
/// Trusted: the text that `str::to_uppercase` gives for these characters; it
/// depends on them alone.
#[verifier::external_body]
pub(crate) fn to_upper(s: &Vec<char>) -> (r: Vec<char>)
    ensures
        r@ == uppercase_text(s@),
{
    s.iter().collect::<String>().to_uppercase().chars().collect()
}

/// Whether `c` is one of the ten decimal digits.
pub open spec fn is_digit(c: char) -> bool {
    '0' <= c && c <= '9'
}

/// The number that a decimal digit stands for.
pub open spec fn digit_of(c: char) -> int {
    c as int - 48
}

/// Every character of `s` is a decimal digit.
pub open spec fn all_digits(s: Seq<char>) -> bool {
    forall|i: int| 0 <= i < s.len() ==> is_digit(#[trigger] s[i])
}

/// The number that a run of decimal digits stands for.
pub open spec fn digits_value(s: Seq<char>) -> int
    decreases s.len(),
{
    if s.len() == 0 {
        0
    } else {
        digits_value(s.drop_last()) * 10 + digit_of(s.last())
    }
}

/// `s` without the `+` that it may begin with.
pub open spec fn unsigned_digits(s: Seq<char>) -> Seq<char> {
    if s.len() > 0 && s[0] == '+' {
        s.skip(1)
    } else {
        s
    }
}

/// The number that `s` stands for, where it is written as an optional `+`
/// followed by at least one decimal digit and is at most `max`.
pub open spec fn parse_unsigned_text(s: Seq<char>, max: int) -> Option<int> {
    let digits = unsigned_digits(s);
    if digits.len() > 0 && all_digits(digits) && digits_value(digits) <= max {
        Some(digits_value(digits))
    } else {
        None
    }
}

/// A run of digits stands for at least as much as each of its prefixes.
pub proof fn lemma_digits_value_grows(s: Seq<char>, k: int)
    requires
        all_digits(s),
        0 <= k <= s.len(),
    ensures
        0 <= digits_value(s.take(k)) <= digits_value(s),
    decreases s.len(),
{
    if k == s.len() {
        assert(s.take(k) =~= s);
        if s.len() > 0 {
            lemma_digits_value_grows(s.drop_last(), k - 1);
            assert(s.drop_last().take(k - 1) =~= s.drop_last());
            assert(is_digit(s[s.len() - 1]));
        }
    } else {
        lemma_digits_value_grows(s.drop_last(), k);
        assert(s.drop_last().take(k) =~= s.take(k));
        assert(is_digit(s[s.len() - 1]));
    }
}

/// Reads an unsigned decimal number of at most `max`.
pub fn parse_unsigned(s: &Vec<char>, max: u64) -> (r: Option<u64>)
    ensures
        match r {
            Some(n) => parse_unsigned_text(s@, max as int) == Some(n as int),
            None => parse_unsigned_text(s@, max as int) is None,
        },
{
    let start: usize = if s.len() > 0 && s[0] == '+' {
        1
    } else {
        0
    };
    let digits = slice_chars(s, start, s.len());
    assert(digits@ =~= unsigned_digits(s@));
    if digits.len() == 0 {
        return None;
    }
    let mut acc: u64 = 0;
    let mut i: usize = 0;
    assert(digits@.take(0) =~= Seq::<char>::empty());
    while i < digits.len()
        invariant
            i <= digits.len(),
            digits@ == unsigned_digits(s@),
            all_digits(digits@.take(i as int)),
            acc == digits_value(digits@.take(i as int)),
            acc <= max,
        decreases digits.len() - i,
    {
        let c = digits[i];
        if !(c >= '0' && c <= '9') {
            assert(!is_digit(digits@[i as int]));
            return None;
        }
        let d: u64 = (c as u64) - 48;
        let ghost next = digits@.take(i + 1);
        proof {
            assert(next.drop_last() =~= digits@.take(i as int));
            assert(next.last() == c);
            assert forall|k: int| 0 <= k < next.len() implies is_digit(#[trigger] next[k]) by {
                if k < i {
                    assert(digits@.take(i as int)[k] == next[k]);
                }
            }
        }
        if max < d || acc > (max - d) / 10 {
            proof {
                if all_digits(digits@) {
                    lemma_digits_value_grows(digits@, i + 1);
                }
            }
            return None;
        }
        acc = acc * 10 + d;
        i += 1;
    }
    assert(digits@.take(i as int) =~= digits@);
    Some(acc)
}

/// The character that writes the digit `d`.
pub open spec fn digit_char(d: int) -> char {
    seq!['0', '1', '2', '3', '4', '5', '6', '7', '8', '9'][d]
}

/// The decimal digits of `n`, without leading zeros.
pub open spec fn decimal_text(n: int) -> Seq<char>
    decreases n,
{
    if n < 10 {
        seq![digit_char(n)]
    } else {
        decimal_text(n / 10).push(digit_char(n % 10))
    }
}

/// Writes a digit.
pub fn digit_to_char(d: u64) -> (c: char)
    requires
        d < 10,
    ensures
        c == digit_char(d as int),
        is_digit(c),
        digit_of(c) == d,
{
    match d {
        0 => '0',
        1 => '1',
        2 => '2',
        3 => '3',
        4 => '4',
        5 => '5',
        6 => '6',
        7 => '7',
        8 => '8',
        _ => '9',
    }
}

/// Appends the decimal digits of `n` to `out`.
pub fn push_decimal(out: &mut Vec<char>, n: u64)
    ensures
        final(out)@ == old(out)@ + decimal_text(n as int),
    decreases n,
{
    if n >= 10 {
        push_decimal(out, n / 10);
    }
    out.push(digit_to_char(n % 10));
}

/// Reading back the digits of a number gives the number.
pub proof fn lemma_decimal_round_trip(n: int)
    requires
        0 <= n,
    ensures
        decimal_text(n).len() > 0,
        all_digits(decimal_text(n)),
        digits_value(decimal_text(n)) == n,
        decimal_text(n)[0] != '+',
    decreases n,
{
    let t = decimal_text(n);
    if n < 10 {
        lemma_digit_char(n);
        assert(t.drop_last() =~= Seq::<char>::empty());
        assert(digits_value(Seq::<char>::empty()) == 0);
        assert(t.last() == digit_char(n));
    } else {
        lemma_decimal_round_trip(n / 10);
        lemma_digit_char(n % 10);
        assert(t.drop_last() =~= decimal_text(n / 10));
        assert(t[0] == decimal_text(n / 10)[0]);
    }
}

/// Each digit's character is a digit that stands for it.
pub proof fn lemma_digit_char(d: int)
    requires
        0 <= d < 10,
    ensures
        is_digit(digit_char(d)),
        digit_of(digit_char(d)) == d,
        digit_char(d) != '+',
{
    if d == 0 {
    } else if d == 1 {
    } else if d == 2 {
    } else if d == 3 {
    } else if d == 4 {
    } else if d == 5 {
    } else if d == 6 {
    } else if d == 7 {
    } else if d == 8 {
    } else {
    }
}

/// How one text stands to another in the order of their characters.
#[derive(Clone, Copy, Debug, PartialEq, Eq, Structural)]
pub enum Rank {
    Before,
    Same,
    After,
}

/// `a` comes strictly before `b`: at the first position where they differ
/// `a` has the smaller character, or `a` is a proper prefix of `b`.
pub open spec fn text_before(a: Seq<char>, b: Seq<char>) -> bool
    decreases a.len(),
{
    if b.len() == 0 {
        false
    } else if a.len() == 0 {
        true
    } else if a[0] != b[0] {
        a[0] < b[0]
    } else {
        text_before(a.skip(1), b.skip(1))
    }
}

/// The order is transitive.
pub proof fn lemma_text_before_transitive(a: Seq<char>, b: Seq<char>, c: Seq<char>)
    requires
        text_before(a, b),
        text_before(b, c),
    ensures
        text_before(a, c),
    decreases a.len(),
{
    if a.len() > 0 && a[0] == b[0] && b[0] == c[0] {
        lemma_text_before_transitive(a.skip(1), b.skip(1), c.skip(1));
    }
}

/// No text comes before itself.
pub proof fn lemma_text_before_irreflexive(a: Seq<char>)
    ensures
        !text_before(a, a),
    decreases a.len(),
{
    if a.len() > 0 {
        lemma_text_before_irreflexive(a.skip(1));
    }
}

/// Places `a` relative to `b`.
pub fn rank(a: &Vec<char>, b: &Vec<char>) -> (r: Rank)
    ensures
        r == Rank::Before <==> text_before(a@, b@),
        r == Rank::Same <==> a@ == b@,
        r == Rank::After <==> text_before(b@, a@),
{
    let mut i: usize = 0;
    assert(a@.skip(0) =~= a@ && b@.skip(0) =~= b@);
    while i < a.len() && i < b.len()
        invariant
            i <= a.len(),
            i <= b.len(),
            a@.take(i as int) == b@.take(i as int),
            text_before(a@, b@) == text_before(a@.skip(i as int), b@.skip(i as int)),
            text_before(b@, a@) == text_before(b@.skip(i as int), a@.skip(i as int)),
        decreases a.len() - i,
    {
        if a[i] < b[i] {
            assert(a@.take(i + 1)[i as int] != b@.take(i + 1)[i as int]);
            return Rank::Before;
        }
        if a[i] > b[i] {
            assert(a@.take(i + 1)[i as int] != b@.take(i + 1)[i as int]);
            return Rank::After;
        }
        assert(a@.skip(i as int).skip(1) =~= a@.skip(i + 1));
        assert(b@.skip(i as int).skip(1) =~= b@.skip(i + 1));
        assert(a@.take(i + 1) =~= a@.take(i as int).push(a@[i as int]));
        assert(b@.take(i + 1) =~= b@.take(i as int).push(b@[i as int]));
        i += 1;
    }
    if i < b.len() {
        assert(a@.len() != b@.len());
        Rank::Before
    } else if i < a.len() {
        assert(a@.len() != b@.len());
        Rank::After
    } else {
        assert(a@ =~= a@.take(i as int));
        assert(b@ =~= b@.take(i as int));
        Rank::Same
    }
}

/// Each text comes strictly before every later one.
pub open spec fn strictly_sorted(l: Seq<Seq<char>>) -> bool {
    forall|i: int, j: int| 0 <= i < j < l.len() ==> text_before(#[trigger] l[i], #[trigger] l[j])
}

/// Puts `item` into a sorted list without repetitions, unless the list holds
/// it already.
pub fn insert_sorted(list: &mut Vec<Vec<char>>, item: Vec<char>)
    requires
        strictly_sorted(texts_of(old(list)@)),
    ensures
        strictly_sorted(texts_of(final(list)@)),
        texts_of(final(list)@).to_set() == texts_of(old(list)@).to_set().insert(item@),
{
    let ghost before = texts_of(list@);
    let mut p: usize = 0;
    let mut stop = false;
    while p < list.len() && !stop
        invariant
            p <= list.len(),
            list@ == old(list)@,
            before == texts_of(list@),
            strictly_sorted(before),
            forall|k: int| 0 <= k < p ==> text_before(#[trigger] before[k], item@),
            stop ==> p < list.len() && text_before(item@, before[p as int]),
        decreases list.len() - p, if stop { 0int } else { 1int },
    {
        let r = rank(&list[p], &item);
        match r {
            Rank::Before => {
                p += 1;
            },
            Rank::Same => {
                proof {
                    assert(before[p as int] == item@);
                    assert(before.to_set().insert(item@) =~= before.to_set());
                }
                return ;
            },
            Rank::After => {
                stop = true;
            },
        }
    }
    list.insert(p, item);
    proof {
        let after = texts_of(list@);
        assert(after =~= before.insert(p as int, item@));
        assert forall|i: int, j: int| 0 <= i < j < after.len() implies text_before(
            #[trigger] after[i],
            #[trigger] after[j],
        ) by {
            if j < p {
            } else if j == p {
            } else if i == p {
                if j - 1 > p {
                    assert(text_before(before[p as int], before[j - 1]));
                    lemma_text_before_transitive(item@, before[p as int], before[j - 1]);
                }
            } else if i < p {
                assert(after[j] == before[j - 1]);
                assert(text_before(before[i], before[j - 1]));
            } else {
                assert(after[i] == before[i - 1]);
                assert(after[j] == before[j - 1]);
            }
        }
        assert forall|x: Seq<char>| after.to_set().contains(x) == before.to_set().insert(
            item@,
        ).contains(x) by {
            if after.contains(x) {
                let k = choose|k: int| 0 <= k < after.len() && after[k] == x;
                if k < p {
                    assert(before[k] == x);
                } else if k > p {
                    assert(before[k - 1] == x);
                }
            }
            if before.contains(x) {
                let k = choose|k: int| 0 <= k < before.len() && before[k] == x;
                if k < p {
                    assert(after[k] == x);
                } else {
                    assert(after[k + 1] == x);
                }
            }
            if x == item@ {
                assert(after[p as int] == x);
            }
        }
        assert(after.to_set() =~= before.to_set().insert(item@));
    }
}

/// Whether `v` holds exactly the characters of `lit`.
pub fn is_text(v: &Vec<char>, lit: &str) -> (r: bool)
    ensures
        r == (v@ == lit@),
{
    let l = chars_of(lit);
    same_chars(v, &l)
}

/// Whether a character is numeric. The standard library decides.
pub uninterp spec fn is_numeric(c: char) -> bool;

/// Whether `c` is numeric.
///
/// Trusted: the answer of `char::is_numeric`, which depends on the character
/// alone.
#[verifier::external_body]
pub(crate) fn char_is_numeric(c: char) -> (r: bool)
    ensures
        r == is_numeric(c),
{
    c.is_numeric()
}

/// The character lists as strings.
pub fn strings_of(list: &Vec<Vec<char>>) -> (r: Vec<String>)
    ensures
        r.deep_view() == texts_of(list@),
{
    let mut r: Vec<String> = Vec::new();
    let mut i: usize = 0;
    while i < list.len()
        invariant
            i <= list.len(),
            r.len() == i,
            forall|k: int| 0 <= k < i ==> r[k]@ == list[k]@,
        decreases list.len() - i,
    {
        r.push(text_of(&list[i]));
        i += 1;
    }
    assert(r.deep_view() =~= texts_of(list@));
    r
}

/// Whether one of the strings holds exactly the characters of `item`.
pub fn holds_text(list: &Vec<String>, item: &Vec<char>) -> (r: bool)
    ensures
        r == list.deep_view().contains(item@),
{
    let mut i: usize = 0;
    while i < list.len()
        invariant
            i <= list.len(),
            forall|k: int| 0 <= k < i ==> list[k]@ != item@,
        decreases list.len() - i,
    {
        let c = chars_of(list[i].as_str());
        if same_chars(&c, item) {
            assert(list.deep_view()[i as int] == item@);
            return true;
        }
        i += 1;
    }
    assert forall|k: int| 0 <= k < list.deep_view().len() implies list.deep_view()[k] != item@ by {
        assert(list.deep_view()[k] == list[k]@);
    }
    false
}

/// Every character of `s` is an ASCII character.
pub open spec fn is_ascii_text(s: Seq<char>) -> bool {
    forall|i: int| 0 <= i < s.len() ==> (#[trigger] s[i]) <= '\u{7f}'
}

/// `s` is a plain name: ASCII characters without white space.
pub open spec fn is_plain_name(s: Seq<char>) -> bool {
    forall|i: int| 0 <= i < s.len() ==> (#[trigger] s[i]) <= '\u{7f}' && !is_space(s[i])
}

/// Where the counting of white space in a text stands: the white-space
/// characters of the current cluster, the characters since the last white
/// space, and the size of the largest cluster so far. A cluster is a run of
/// white-space characters in which each stands at most four characters
/// after the one before.
pub ghost struct SpaceScan {
    pub cluster: int,
    pub gap: int,
    pub largest: int,
}

/// Counting the clusters of white space in a text from the left.
pub open spec fn space_scan(s: Seq<char>) -> SpaceScan
    decreases s.len(),
{
    if s.len() == 0 {
        SpaceScan { cluster: 0, gap: 0, largest: 0 }
    } else {
        let st = space_scan(s.drop_last());
        if is_space(s.last()) {
            let cluster = if st.cluster > 0 && st.gap <= 3 {
                st.cluster + 1
            } else {
                1
            };
            SpaceScan {
                cluster,
                gap: 0,
                largest: if cluster > st.largest {
                    cluster
                } else {
                    st.largest
                },
            }
        } else {
            SpaceScan { gap: st.gap + 1, ..st }
        }
    }
}

/// The most white-space characters that may stand in one cluster of a text
/// that is not ASCII.
pub const MAX_CLUSTER: usize = 15;

/// A text can stand in a folded line: it is ASCII, or no cluster of its
/// white space holds more than fifteen characters.
pub open spec fn folds(s: Seq<char>) -> bool {
    is_ascii_text(s) || space_scan(s).largest <= MAX_CLUSTER
}

/// The counts of a scan are not negative, and no cluster is larger than the
/// largest.
pub proof fn lemma_space_scan(s: Seq<char>)
    ensures
        0 <= space_scan(s).cluster <= space_scan(s).largest <= s.len(),
        0 <= space_scan(s).gap <= s.len(),
    decreases s.len(),
{
    if s.len() > 0 {
        lemma_space_scan(s.drop_last());
    }
}

/// Whether a text can stand in a folded line.
pub fn can_fold(s: &str) -> (r: bool)
    ensures
        r == folds(s@),
{
    let v = chars_of(s);
    let mut ascii = true;
    let mut cluster: usize = 0;
    let mut gap: usize = 0;
    let mut largest: usize = 0;
    let mut i: usize = 0;
    assert(v@.take(0) =~= Seq::<char>::empty());
    while i < v.len()
        invariant
            i <= v.len(),
            ascii == is_ascii_text(v@.take(i as int)),
            cluster == space_scan(v@.take(i as int)).cluster,
            gap == space_scan(v@.take(i as int)).gap,
            largest == space_scan(v@.take(i as int)).largest,
        decreases v.len() - i,
    {
        let c = v[i];
        let ghost prefix = v@.take(i + 1);
        proof {
            assert(prefix.drop_last() =~= v@.take(i as int));
            assert(prefix.last() == c);
            assert(prefix[i as int] == c);
            lemma_space_scan(v@.take(i as int));
            if c <= '\u{7f}' {
                if is_ascii_text(v@.take(i as int)) {
                    assert forall|k: int| 0 <= k < prefix.len() implies (#[trigger] prefix[k])
                        <= '\u{7f}' by {
                        if k < i {
                            assert(prefix[k] == v@.take(i as int)[k]);
                        }
                    }
                } else {
                    let k = choose|k: int|
                        0 <= k < i && !((#[trigger] v@.take(i as int)[k]) <= '\u{7f}');
                    assert(prefix[k] == v@.take(i as int)[k]);
                }
            }
        }
        if c > '\u{7f}' {
            ascii = false;
        }
        if char_is_space(c) {
            cluster = if cluster > 0 && gap <= 3 {
                cluster + 1
            } else {
                1
            };
            gap = 0;
            if cluster > largest {
                largest = cluster;
            }
        } else {
            gap += 1;
        }
        i += 1;
    }
    assert(v@.take(i as int) =~= v@);
    ascii || largest <= MAX_CLUSTER
}

/// A concatenation of ASCII texts is ASCII.
pub proof fn lemma_ascii_concat(a: Seq<char>, b: Seq<char>)
    requires
        is_ascii_text(a),
        is_ascii_text(b),
    ensures
        is_ascii_text(a + b),
{
    assert forall|i: int| 0 <= i < (a + b).len() implies (#[trigger] (a + b)[i]) <= '\u{7f}' by {
        if i < a.len() {
            assert((a + b)[i] == a[i]);
        } else {
            assert((a + b)[i] == b[i - a.len()]);
        }
    }
}

/// The decimal digits of a number are ASCII.
pub proof fn lemma_decimal_is_ascii(n: int)
    requires
        0 <= n,
    ensures
        is_ascii_text(decimal_text(n)),
{
    lemma_decimal_round_trip(n);
    assert forall|i: int| 0 <= i < decimal_text(n).len() implies (#[trigger] decimal_text(
        n,
    )[i]) <= '\u{7f}' by {
        assert(is_digit(decimal_text(n)[i]));
    }
}

/// The number of positions before `n` at which `pat` occurs in `s`.
pub open spec fn occurrences_before(s: Seq<char>, pat: Seq<char>, n: int) -> int
    decreases n,
{
    if n <= 0 {
        0
    } else if occurs_at(s, pat, n - 1) {
        occurrences_before(s, pat, n - 1) + 1
    } else {
        occurrences_before(s, pat, n - 1)
    }
}

/// The number of positions at which `pat` occurs in `s`.
pub open spec fn occurrences(s: Seq<char>, pat: Seq<char>) -> int {
    occurrences_before(s, pat, s.len() as int)
}

/// Counts the positions at which `pat` occurs in `s`.
pub fn count_occurrences(s: &Vec<char>, pat: &Vec<char>) -> (r: usize)
    ensures
        r == occurrences(s@, pat@),
{
    let mut count: usize = 0;
    let mut i: usize = 0;
    while i < s.len()
        invariant
            i <= s.len(),
            count <= i,
            count == occurrences_before(s@, pat@, i as int),
        decreases s.len() - i,
    {
        if occurs(s, pat, i) {
            count += 1;
        }
        i += 1;
    }
    count
}

} // verus!
