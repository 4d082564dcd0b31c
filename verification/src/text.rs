//! Text as sequences of characters: lines, words, prefixes and numbers.
//!
//! The specifications describe what the standard string methods of the same
//! purpose return; the functions are proved against them.

use vstd::arithmetic::power::{lemma_pow0, lemma_pow1, lemma_pow_adds, pow};
use vstd::prelude::*;
use vstd::slice::slice_subrange;
use vstd::string::*;

verus! {

/// Appends one character. `String::push` leaves what was there and adds the
/// character at the end.
pub assume_specification[ String::push ](s: &mut String, c: char)
    ensures
        final(s)@ == old(s)@.push(c),
;

/// Whether a character has the Unicode property `White_Space`.
pub open spec fn space(c: char) -> bool {
    let u = c as u32;
    ||| 0x9 <= u <= 0xd
    ||| u == 0x20 || u == 0x85 || u == 0xa0 || u == 0x1680
    ||| 0x2000 <= u <= 0x200a
    ||| u == 0x2028 || u == 0x2029 || u == 0x202f || u == 0x205f || u == 0x3000
}

/// Whether a character is an ASCII decimal digit.
pub open spec fn digit(c: char) -> bool {
    '0' as u32 <= c as u32 <= '9' as u32
}

/// Number of characters before the first `c`, all of them where there is none.
pub open spec fn find(s: Seq<char>, c: char) -> nat
    decreases s.len(),
{
    if s.len() == 0 || s[0] == c {
        0
    } else {
        1 + find(s.skip(1), c)
    }
}

/// Whether `s` begins with `p`.
pub open spec fn has_prefix(s: Seq<char>, p: Seq<char>) -> bool {
    p.len() <= s.len() && s.take(p.len() as int) == p
}

/// Number of characters before the first occurrence of `p`, all of them where
/// there is none. Meant for a `p` that is not empty.
pub open spec fn find_seq(s: Seq<char>, p: Seq<char>) -> nat
    decreases s.len(),
{
    if s.len() == 0 || has_prefix(s, p) {
        0
    } else {
        1 + find_seq(s.skip(1), p)
    }
}

/// What stands behind the last `c`, all of `s` where there is none.
pub open spec fn after_last(s: Seq<char>, c: char) -> Seq<char>
    decreases s.len(),
{
    let k = find(s, c);
    if k < s.len() {
        after_last(s.skip(k as int + 1), c)
    } else {
        s
    }
}

/// `s` without one carriage return at its end.
pub open spec fn chomp(s: Seq<char>) -> Seq<char> {
    if s.len() > 0 && s.last() == '\r' {
        s.drop_last()
    } else {
        s
    }
}

/// The lines of a text, ended by `\n` or `\r\n`; the last one may have no end.
pub open spec fn lines(s: Seq<char>) -> Seq<Seq<char>>
    decreases s.len(),
{
    if s.len() == 0 {
        seq![]
    } else {
        let n = find(s, '\n');
        if n < s.len() {
            seq![chomp(s.take(n as int))] + lines(s.skip(n as int + 1))
        } else {
            seq![s]
        }
    }
}

/// Number of characters before the first white space.
pub open spec fn word_len(s: Seq<char>) -> nat
    decreases s.len(),
{
    if s.len() == 0 || space(s[0]) {
        0
    } else {
        1 + word_len(s.skip(1))
    }
}

/// The maximal runs of characters that are no white space, in order.
pub open spec fn words(s: Seq<char>) -> Seq<Seq<char>>
    decreases s.len(),
{
    if s.len() == 0 {
        seq![]
    } else if space(s[0]) {
        words(s.skip(1))
    } else {
        proof {
            word_len_properties(s);
        }
        seq![s.take(word_len(s) as int)] + words(s.skip(word_len(s) as int))
    }
}

/// `s` without the white space at its beginning.
pub open spec fn trim_start(s: Seq<char>) -> Seq<char>
    decreases s.len(),
{
    if s.len() > 0 && space(s[0]) {
        trim_start(s.skip(1))
    } else {
        s
    }
}

/// `s` without the white space at its end.
pub open spec fn trim_end(s: Seq<char>) -> Seq<char>
    decreases s.len(),
{
    if s.len() > 0 && space(s.last()) {
        trim_end(s.drop_last())
    } else {
        s
    }
}

/// `s` without the white space at both ends.
pub open spec fn trim(s: Seq<char>) -> Seq<char> {
    trim_end(trim_start(s))
}

/// Whether `s` is a run of decimal digits, at least one.
pub open spec fn all_digits(s: Seq<char>) -> bool {
    s.len() > 0 && forall|i: int| 0 <= i < s.len() ==> digit(#[trigger] s[i])
}

/// The number that a run of decimal digits denotes.
pub open spec fn value(s: Seq<char>) -> nat
    decreases s.len(),
{
    if s.len() == 0 {
        0
    } else {
        value(s.drop_last()) * 10 + (s.last() as u32 - '0' as u32) as nat
    }
}

/// The 16-bit number that a text denotes: decimal digits behind an optional
/// plus sign, no larger than the type holds.
pub open spec fn port_number(s: Seq<char>) -> Option<u16> {
    let d = if s.len() > 0 && s[0] == '+' {
        s.skip(1)
    } else {
        s
    };
    if all_digits(d) && value(d) <= u16::MAX {
        Some(value(d) as u16)
    } else {
        None
    }
}

/// The decimal digit of a number below ten.
pub open spec fn digit_char(d: nat) -> char {
    ('0' as u32 + d) as char
}

/// A number in decimal, without leading zeros.
pub open spec fn decimal(n: nat) -> Seq<char>
    decreases n,
{
    if n < 10 {
        seq![digit_char(n)]
    } else {
        decimal(n / 10).push(digit_char(n % 10))
    }
}

/// The texts of a sequence of slices.
pub open spec fn texts(v: Seq<&[char]>) -> Seq<Seq<char>> {
    v.map_values(|s: &[char]| s@)
}

/// The texts of a sequence of strings.
pub open spec fn strings_view(v: Seq<String>) -> Seq<Seq<char>> {
    v.map_values(|s: String| s@)
}

/// `find` is a position in the text, no `c` stands before it, and one stands
/// there unless it is the end.
pub proof fn find_properties(s: Seq<char>, c: char)
    ensures
        find(s, c) <= s.len(),
        forall|i: int| 0 <= i < find(s, c) ==> s[i] != c,
        find(s, c) < s.len() ==> s[find(s, c) as int] == c,
    decreases s.len(),
{
    if s.len() > 0 && s[0] != c {
        find_properties(s.skip(1), c);
        assert forall|i: int| 0 <= i < find(s, c) implies s[i] != c by {
            if i > 0 {
                assert(s[i] == s.skip(1)[i - 1]);
            }
        }
    }
}

/// A position before which no `c` stands, and at which one stands or the text
/// ends, is the one that `find` gives.
pub proof fn find_unique(s: Seq<char>, c: char, k: int)
    requires
        0 <= k <= s.len(),
        forall|i: int| 0 <= i < k ==> s[i] != c,
        k < s.len() ==> s[k] == c,
    ensures
        find(s, c) == k,
{
    find_properties(s, c);
    let f = find(s, c) as int;
    if f < k {
        assert(s[f] != c);
    } else if k < f {
        assert(s[k] != c);
    }
}

/// `word_len` is a position in the text, no white space stands before it, and
/// white space stands there unless it is the end.
pub proof fn word_len_properties(s: Seq<char>)
    ensures
        word_len(s) <= s.len(),
        forall|i: int| 0 <= i < word_len(s) ==> !space(s[i]),
        word_len(s) < s.len() ==> space(s[word_len(s) as int]),
    decreases s.len(),
{
    if s.len() > 0 && !space(s[0]) {
        word_len_properties(s.skip(1));
        assert forall|i: int| 0 <= i < word_len(s) implies !space(s[i]) by {
            if i > 0 {
                assert(s[i] == s.skip(1)[i - 1]);
            }
        }
    }
}

/// A position before which no white space stands, and at which some stands or
/// the text ends, is the one that `word_len` gives.
proof fn word_len_unique(s: Seq<char>, k: int)
    requires
        0 <= k <= s.len(),
        forall|i: int| 0 <= i < k ==> !space(s[i]),
        k < s.len() ==> space(s[k]),
    ensures
        word_len(s) == k,
{
    word_len_properties(s);
    let f = word_len(s) as int;
    if f < k {
        assert(!space(s[f]));
    } else if k < f {
        assert(!space(s[k]));
    }
}

/// The characters of a string.
pub fn chars_of(s: &str) -> (v: Vec<char>)
    ensures
        v@ == s@,
{
    let mut v: Vec<char> = Vec::new();
    for c in it: s.chars()
        invariant
            v@ == it.seq().take(it.index()),
            it.seq() == s@,
    {
        v.push(c);
    }
    v
}

/// The string of a slice of characters.
pub fn string_of(s: &[char]) -> (r: String)
    ensures
        r@ == s@,
{
    let mut r = String::new();
    for i in 0..s.len()
        invariant
            r@ == s@.take(i as int),
    {
        r.push(s[i]);
        assert(s@.take(i + 1) =~= s@.take(i as int).push(s@[i as int]));
    }
    assert(s@.take(s@.len() as int) =~= s@);
    r
}

/// Whether a character is white space.
pub fn is_space(c: char) -> (r: bool)
    ensures
        r == space(c),
{
    let u = c as u32;
    (0x9 <= u && u <= 0xd) || u == 0x20 || u == 0x85 || u == 0xa0 || u == 0x1680 || (0x2000 <= u
        && u <= 0x200a) || u == 0x2028 || u == 0x2029 || u == 0x202f || u == 0x205f || u == 0x3000
}

/// Whether a character is a decimal digit.
pub fn is_digit(c: char) -> (r: bool)
    ensures
        r == digit(c),
{
    let u = c as u32;
    0x30 <= u && u <= 0x39
}

/// Position of the first `c` in `s`, its length where there is none.
pub fn find_char(s: &[char], c: char) -> (k: usize)
    ensures
        k == find(s@, c),
        k <= s@.len(),
{
    let mut k: usize = 0;
    while k < s.len()
        invariant
            k <= s@.len(),
            forall|i: int| 0 <= i < k ==> s@[i] != c,
        decreases s@.len() - k,
    {
        if s[k] == c {
            proof {
                find_unique(s@, c, k as int);
            }
            return k;
        }
        k += 1;
    }
    proof {
        find_unique(s@, c, k as int);
    }
    k
}

/// Whether `s` begins with `p`.
pub fn begins_with(s: &[char], p: &[char]) -> (r: bool)
    ensures
        r == has_prefix(s@, p@),
{
    if s.len() < p.len() {
        return false;
    }
    for i in 0..p.len()
        invariant
            p@.len() <= s@.len(),
            s@.take(i as int) == p@.take(i as int),
    {
        if s[i] != p[i] {
            assert(s@.take(p@.len() as int)[i as int] != p@[i as int]);
            return false;
        }
        assert(s@.take(i + 1) =~= s@.take(i as int).push(s@[i as int]));
        assert(p@.take(i + 1) =~= p@.take(i as int).push(p@[i as int]));
    }
    assert(p@.take(p@.len() as int) =~= p@);
    true
}

/// Whether two texts are the same.
pub fn same_text(a: &[char], b: &[char]) -> (r: bool)
    ensures
        r == (a@ == b@),
{
    if a.len() != b.len() {
        return false;
    }
    let r = begins_with(a, b);
    assert(a@.take(a@.len() as int) =~= a@);
    r
}

/// Position of the first occurrence of `p` in `s`, its length where there is
/// none.
pub fn find_text(s: &[char], p: &[char]) -> (k: usize)
    ensures
        k == find_seq(s@, p@),
        k <= s@.len(),
{
    let mut k: usize = 0;
    assert(s@.skip(0) =~= s@);
    while k < s.len()
        invariant
            k <= s@.len(),
            find_seq(s@, p@) == k + find_seq(s@.skip(k as int), p@),
        decreases s@.len() - k,
    {
        if begins_with(slice_subrange(s, k, s.len()), p) {
            return k;
        }
        assert(s@.skip(k as int).skip(1) =~= s@.skip(k + 1));
        k += 1;
    }
    k
}

/// What stands behind the last `c`, all of `s` where there is none.
pub fn behind_last(s: &[char], c: char) -> (r: &[char])
    ensures
        r@ == after_last(s@, c),
{
    let mut at: usize = 0;
    assert(s@.skip(0) =~= s@);
    loop
        invariant
            at <= s@.len(),
            after_last(s@, c) == after_last(s@.skip(at as int), c),
        decreases s@.len() - at,
    {
        let rest = slice_subrange(s, at, s.len());
        assert(rest@ =~= s@.skip(at as int));
        let k = find_char(rest, c);
        if k == rest.len() {
            return rest;
        }
        assert(rest@.skip(k + 1) =~= s@.skip(at + k + 1));
        at = at + k + 1;
    }
}

/// The lines of a text.
pub fn split_lines<'a>(s: &'a [char]) -> (r: Vec<&'a [char]>)
    ensures
        texts(r@) == lines(s@),
{
    let mut r: Vec<&'a [char]> = Vec::new();
    let mut at: usize = 0;
    assert(s@.skip(0) =~= s@);
    while at < s.len()
        invariant
            at <= s@.len(),
            lines(s@) == texts(r@) + lines(s@.skip(at as int)),
        decreases s@.len() - at,
    {
        let rest = slice_subrange(s, at, s.len());
        assert(rest@ =~= s@.skip(at as int));
        let k = find_char(rest, '\n');
        let ghost before = texts(r@);
        if k == rest.len() {
            r.push(rest);
            assert(texts(r@) =~= before + seq![rest@]);
            return r;
        }
        let mut end: usize = k;
        if end > 0 && rest[end - 1] == '\r' {
            end = end - 1;
        }
        let line = slice_subrange(rest, 0, end);
        assert(line@ =~= chomp(rest@.take(k as int)));
        r.push(line);
        assert(texts(r@) =~= before + seq![line@]);
        assert(rest@.skip(k + 1) =~= s@.skip(at + k + 1));
        at = at + k + 1;
        assert(texts(r@) + lines(s@.skip(at as int)) =~= before + lines(rest@));
    }
    assert(lines(s@.skip(at as int)) =~= seq![]);
    assert(texts(r@) + seq![] =~= texts(r@));
    r
}

/// The words of a text.
pub fn split_words<'a>(s: &'a [char]) -> (r: Vec<&'a [char]>)
    ensures
        texts(r@) == words(s@),
{
    let mut r: Vec<&'a [char]> = Vec::new();
    let mut at: usize = 0;
    assert(s@.skip(0) =~= s@);
    assert(texts(r@) + words(s@) =~= words(s@));
    while at < s.len()
        invariant
            at <= s@.len(),
            words(s@) == texts(r@) + words(s@.skip(at as int)),
        decreases s@.len() - at,
    {
        let ghost rest = s@.skip(at as int);
        if is_space(s[at]) {
            assert(rest.skip(1) =~= s@.skip(at + 1));
            at += 1;
        } else {
            let start = at;
            while at < s.len() && !is_space(s[at])
                invariant
                    start <= at <= s@.len(),
                    forall|i: int| start <= i < at ==> !space(s@[i]),
                decreases s@.len() - at,
            {
                at += 1;
            }
            proof {
                assert forall|i: int| 0 <= i < at - start implies !space(rest[i]) by {
                    assert(rest[i] == s@[start + i]);
                }
                word_len_unique(rest, at - start);
            }
            let ghost before = texts(r@);
            let word = slice_subrange(s, start, at);
            assert(word@ =~= rest.take(at - start));
            r.push(word);
            assert(texts(r@) =~= before + seq![word@]);
            assert(rest.skip(at - start) =~= s@.skip(at as int));
            assert(texts(r@) + words(s@.skip(at as int)) =~= before + words(rest));
        }
    }
    assert(words(s@.skip(at as int)) =~= seq![]);
    assert(texts(r@) + seq![] =~= texts(r@));
    r
}

/// A text without the white space at both ends.
pub fn trimmed<'a>(s: &'a [char]) -> (r: &'a [char])
    ensures
        r@ == trim(s@),
{
    let mut a: usize = 0;
    assert(s@.skip(0) =~= s@);
    while a < s.len() && is_space(s[a])
        invariant
            a <= s@.len(),
            trim_start(s@) == trim_start(s@.skip(a as int)),
        decreases s@.len() - a,
    {
        assert(s@.skip(a as int).skip(1) =~= s@.skip(a + 1));
        a += 1;
    }
    let rest = slice_subrange(s, a, s.len());
    assert(rest@ =~= s@.skip(a as int));
    let mut b: usize = rest.len();
    assert(rest@.take(b as int) =~= rest@);
    while b > 0 && is_space(rest[b - 1])
        invariant
            b <= rest@.len(),
            trim_end(rest@) == trim_end(rest@.take(b as int)),
        decreases b,
    {
        assert(rest@.take(b as int).drop_last() =~= rest@.take(b - 1));
        b -= 1;
    }
    let r = slice_subrange(rest, 0, b);
    assert(r@ =~= rest@.take(b as int));
    r
}

/// A longer run of digits denotes no smaller number.
proof fn value_grows(s: Seq<char>, k: int)
    requires
        0 <= k <= s.len(),
    ensures
        value(s.take(k)) <= value(s),
    decreases s.len() - k,
{
    if k < s.len() {
        assert(s.take(k + 1).drop_last() =~= s.take(k));
        value_grows(s, k + 1);
    } else {
        assert(s.take(k) =~= s);
    }
}

/// The number that a run of decimal digits denotes, where it is no larger than
/// `max`.
pub fn parse_digits(s: &[char], max: u32) -> (r: Option<u32>)
    ensures
        r is Some <==> all_digits(s@) && value(s@) <= max,
        r is Some ==> r->0 == value(s@),
{
    if s.len() == 0 {
        return None;
    }
    let mut n: u64 = 0;
    for i in 0..s.len()
        invariant
            n == value(s@.take(i as int)),
            n <= max,
            forall|j: int| 0 <= j < i ==> digit(#[trigger] s@[j]),
    {
        if !is_digit(s[i]) {
            assert(!digit(s@[i as int]));
            return None;
        }
        assert(s@.take(i + 1).drop_last() =~= s@.take(i as int));
        let d: u32 = s[i] as u32 - 0x30;
        n = n * 10 + d as u64;
        assert(n == value(s@.take(i + 1)));
        if n > max as u64 {
            proof {
                value_grows(s@, i + 1);
            }
            return None;
        }
    }
    assert(s@.take(s@.len() as int) =~= s@);
    Some(n as u32)
}

/// The 16-bit number that a text denotes.
pub fn parse_port(s: &[char]) -> (r: Option<u16>)
    ensures
        r == port_number(s@),
{
    let mut start: usize = 0;
    if s.len() > 0 && s[0] == '+' {
        start = 1;
    }
    let d = slice_subrange(s, start, s.len());
    assert(start == 1 ==> d@ =~= s@.skip(1));
    assert(start == 0 ==> d@ =~= s@);
    match parse_digits(d, 0xffff) {
        Some(n) => Some(n as u16),
        None => None,
    }
}

/// Appends a number in decimal.
pub fn push_decimal(out: &mut String, n: u64)
    ensures
        final(out)@ == old(out)@ + decimal(n as nat),
    decreases n,
{
    if n >= 10 {
        push_decimal(out, n / 10);
    }
    let d = (n % 10) as u8;
    out.push((0x30 + d) as char);
    assert(out@ =~= old(out)@ + decimal(n as nat));
}

/// The decimal digits of a number, read back, denote it; they are digits only,
/// and the first is no zero unless it stands alone.
pub proof fn decimal_properties(n: nat)
    ensures
        all_digits(decimal(n)),
        value(decimal(n)) == n,
        decimal(n).len() > 1 ==> decimal(n)[0] != '0',
        decimal(n)[0] == '0' ==> n == 0,
    decreases n,
{
    if n >= 10 {
        decimal_properties(n / 10);
        let head = decimal(n / 10);
        assert(decimal(n).drop_last() =~= head);
        assert(decimal(n)[0] == head[0]);
    } else {
        assert(decimal(n).drop_last() =~= seq![]);
        assert(value(seq![]) == 0);
    }
}

/// A run of digits that does not begin with a needless zero is the decimal form
/// of the number that it denotes.
pub proof fn decimal_of_value(s: Seq<char>)
    requires
        all_digits(s),
        s.len() == 1 || s[0] != '0',
    ensures
        decimal(value(s)) == s,
        s.len() > 1 ==> value(s) >= 10,
        s[0] != '0' ==> value(s) >= 1,
    decreases s.len(),
{
    let c: char = s.last();
    assert(digit(s[s.len() - 1]) && c == s[s.len() - 1]);
    let d = (s.last() as u32 - '0' as u32) as nat;
    assert(digit_char(d) == c) by {
        vstd::utf8::char_u32_cast(c, c as u32);
    }
    if s.len() == 1 {
        assert(s.drop_last() =~= seq![]);
        assert(value(seq![]) == 0);
        assert(decimal(d) =~= s);
    } else {
        let head = s.drop_last();
        assert forall|i: int| 0 <= i < head.len() implies digit(#[trigger] head[i]) by {
            assert(head[i] == s[i]);
        }
        decimal_of_value(head);
        let n = value(s);
        assert(n / 10 == value(head) && n % 10 == d);
        assert(decimal(n) =~= s);
    }
}

/// A text begins with another exactly when it is that text and something behind it.
pub proof fn prefix_and_rest(s: Seq<char>, p: Seq<char>, t: Seq<char>)
    ensures
        has_prefix(p + t, p),
        has_prefix(s, p) ==> s == p + s.skip(p.len() as int),
        !has_prefix(s, p) ==> s != p + t,
{
    assert((p + t).take(p.len() as int) =~= p);
    if has_prefix(s, p) {
        assert(s =~= s.take(p.len() as int) + s.skip(p.len() as int));
    }
}

/// `find_seq` is a position in the text, `p` stands at none before it, and it
/// stands there unless it is the end.
pub proof fn find_seq_properties(s: Seq<char>, p: Seq<char>)
    ensures
        find_seq(s, p) <= s.len(),
        forall|k: int| 0 <= k < find_seq(s, p) ==> !has_prefix(#[trigger] s.skip(k), p),
        find_seq(s, p) < s.len() ==> has_prefix(s.skip(find_seq(s, p) as int), p),
    decreases s.len(),
{
    assert(s.skip(0) =~= s);
    if s.len() > 0 && !has_prefix(s, p) {
        find_seq_properties(s.skip(1), p);
        assert forall|k: int| 0 <= k < find_seq(s, p) implies !has_prefix(
            #[trigger] s.skip(k),
            p,
        ) by {
            if k > 0 {
                assert(s.skip(1).skip(k - 1) =~= s.skip(k));
            }
        }
        let f = find_seq(s.skip(1), p) as int;
        assert(s.skip(1).skip(f) =~= s.skip(f + 1));
    }
}

/// What stands behind the last `c` is all that follows it, and a text without `c`
/// is left as it is.
pub proof fn after_last_is_the_end(before: Seq<char>, c: char, end: Seq<char>)
    requires
        forall|i: int| 0 <= i < end.len() ==> end[i] != c,
    ensures
        after_last(before + seq![c] + end, c) == end,
        after_last(end, c) == end,
    decreases before.len(),
{
    find_unique(end, c, end.len() as int);
    assert(after_last(end, c) == end);
    let s = before + seq![c] + end;
    find_properties(s, c);
    let k = find(s, c) as int;
    assert(s[before.len() as int] == c);
    assert(k <= before.len());
    assert(after_last(s, c) == after_last(s.skip(k + 1), c));
    if k == before.len() {
        assert(s.skip(k + 1) =~= end);
    } else {
        let less = before.skip(k + 1);
        assert(s.skip(k + 1) =~= less + seq![c] + end);
        after_last_is_the_end(less, c, end);
    }
}

/// A line is what stands before its end, which is `\n` or `\r\n`; what follows is
/// the other lines. The last line needs no end.
pub proof fn lines_end_at_newlines(line: Seq<char>, rest: Seq<char>)
    requires
        forall|i: int| 0 <= i < line.len() ==> line[i] != '\n',
    ensures
        lines(seq![]) == Seq::<Seq<char>>::empty(),
        line.len() > 0 ==> lines(line) == seq![line],
        (line.len() == 0 || line.last() != '\r') ==> lines(line + seq!['\n'] + rest) == seq![line]
            + lines(rest),
        lines(line + seq!['\r', '\n'] + rest) == seq![line] + lines(rest),
{
    find_unique(line, '\n', line.len() as int);
    let s = line + seq!['\n'] + rest;
    find_unique(s, '\n', line.len() as int);
    assert(s.take(line.len() as int) =~= line);
    assert(s.skip(line.len() as int + 1) =~= rest);
    let longer = line.push('\r');
    let t = line + seq!['\r', '\n'] + rest;
    find_unique(t, '\n', longer.len() as int);
    assert(t.take(longer.len() as int) =~= longer);
    assert(longer.drop_last() =~= line);
    assert(t.skip(longer.len() as int + 1) =~= rest);
}

/// A word is what stands before white space or the end; white space before a word
/// has no part in it.
pub proof fn words_end_at_spaces(word: Seq<char>, c: char, rest: Seq<char>)
    requires
        word.len() > 0,
        forall|i: int| 0 <= i < word.len() ==> !space(#[trigger] word[i]),
        space(c),
    ensures
        words(seq![]) == Seq::<Seq<char>>::empty(),
        words(word) == seq![word],
        words(seq![c] + rest) == words(rest),
        words(word + seq![c] + rest) == seq![word] + words(rest),
{
    let n = word.len() as int;
    word_len_unique(word, n);
    assert(!space(word[0]));
    assert(word.take(n) =~= word);
    assert(word.skip(n) =~= seq![]);
    assert(words(word.skip(n)) =~= seq![]);
    assert(words(word) =~= seq![word]);
    let after = seq![c] + rest;
    assert(after.skip(1) =~= rest);
    assert(words(after) == words(rest));
    let s = word + seq![c] + rest;
    assert forall|i: int| 0 <= i < n implies !space(s[i]) by {
        assert(s[i] == word[i]);
    }
    word_len_unique(s, n);
    assert(s[0] == word[0]);
    assert(s.take(n) =~= word);
    assert(s.skip(n) =~= after);
    assert(words(s) == seq![s.take(n)] + words(s.skip(n)));
}

/// White space alone is trimmed away.
proof fn trim_start_of_spaces(spaces: Seq<char>, rest: Seq<char>)
    requires
        forall|i: int| 0 <= i < spaces.len() ==> space(#[trigger] spaces[i]),
        rest.len() > 0 ==> !space(rest[0]),
    ensures
        trim_start(spaces + rest) == rest,
    decreases spaces.len(),
{
    let s = spaces + rest;
    if spaces.len() > 0 {
        assert(space(spaces[0]) && s[0] == spaces[0]);
        let less = spaces.skip(1);
        assert forall|i: int| 0 <= i < less.len() implies space(#[trigger] less[i]) by {
            assert(less[i] == spaces[i + 1]);
        }
        assert(s.skip(1) =~= less + rest);
        trim_start_of_spaces(less, rest);
    } else {
        assert(s =~= rest);
    }
}

/// White space at the end is trimmed away.
proof fn trim_end_of_spaces(rest: Seq<char>, spaces: Seq<char>)
    requires
        forall|i: int| 0 <= i < spaces.len() ==> space(#[trigger] spaces[i]),
        rest.len() > 0 ==> !space(rest.last()),
    ensures
        trim_end(rest + spaces) == rest,
    decreases spaces.len(),
{
    let s = rest + spaces;
    if spaces.len() > 0 {
        assert(space(spaces[spaces.len() - 1]) && s.last() == spaces[spaces.len() - 1]);
        let less = spaces.drop_last();
        assert forall|i: int| 0 <= i < less.len() implies space(#[trigger] less[i]) by {
            assert(less[i] == spaces[i]);
        }
        assert(s.drop_last() =~= rest + less);
        trim_end_of_spaces(rest, less);
    } else {
        assert(s =~= rest);
    }
}

/// Trimming takes the white space at both ends away and nothing else.
pub proof fn trim_takes_spaces(before: Seq<char>, inner: Seq<char>, after: Seq<char>)
    requires
        forall|i: int| 0 <= i < before.len() ==> space(#[trigger] before[i]),
        forall|i: int| 0 <= i < after.len() ==> space(#[trigger] after[i]),
        inner.len() > 0 ==> !space(inner[0]) && !space(inner.last()),
    ensures
        trim(before + inner + after) == inner,
{
    let s = before + inner + after;
    if inner.len() > 0 {
        assert(s =~= before + (inner + after));
        assert((inner + after)[0] == inner[0]);
        trim_start_of_spaces(before, inner + after);
        trim_end_of_spaces(inner, after);
    } else {
        let all = before + after;
        assert(s =~= all);
        assert forall|i: int| 0 <= i < all.len() implies space(#[trigger] all[i]) by {
            if i < before.len() {
                assert(all[i] == before[i]);
            } else {
                assert(all[i] == after[i - before.len()]);
            }
        }
        assert(all + seq![] =~= all);
        trim_start_of_spaces(all, seq![]);
        assert(inner =~= seq![]);
    }
}

/// Digits count by their position: those in front are worth a power of ten more
/// for each digit behind them.
pub proof fn value_by_position(a: Seq<char>, b: Seq<char>)
    ensures
        value(a + b) == value(a) * pow(10, b.len()) + value(b),
        b.len() == 1 && digit(b[0]) ==> value(b) == b[0] as u32 - '0' as u32,
        value(seq![]) == 0,
    decreases b.len(),
{
    lemma_pow0(10);
    if b.len() == 0 {
        assert(a + b =~= a);
    } else {
        let less = b.drop_last();
        value_by_position(a, less);
        assert((a + b).drop_last() =~= a + less);
        assert((a + b).last() == b.last());
        lemma_pow1(10);
        lemma_pow_adds(10, less.len(), 1);
        let x = value(a) as int;
        let y = pow(10, less.len());
        assert((x * y) * 10 == x * (y * 10)) by (nonlinear_arith);
        if b.len() == 1 {
            assert(less =~= seq![]);
        }
    }
}

/// A text denotes a port exactly when it is digits, behind a plus sign or not, whose
/// number is no larger than a port can be; it denotes that number. The decimal form
/// of every port denotes it.
pub proof fn port_text(digits: Seq<char>, s: Seq<char>, port: u16)
    ensures
        all_digits(digits) && value(digits) <= 65535 ==> {
            &&& port_number(digits) == Some(value(digits) as u16)
            &&& port_number(seq!['+'] + digits) == Some(value(digits) as u16)
        },
        all_digits(digits) && value(digits) > 65535 ==> port_number(digits) is None && port_number(
            seq!['+'] + digits,
        ) is None,
        port_number(s) is Some ==> all_digits(s) || (s.len() > 0 && s[0] == '+' && all_digits(
            s.skip(1),
        )),
        port_number(decimal(port as nat)) == Some(port),
        port_number(seq!['+'] + decimal(port as nat)) == Some(port),
{
    port_text_of_digits(digits);
    decimal_properties(port as nat);
    port_text_of_digits(decimal(port as nat));
}

/// What digits denote as a port.
proof fn port_text_of_digits(digits: Seq<char>)
    ensures
        all_digits(digits) ==> {
            let expected = if value(digits) <= 65535 {
                Some(value(digits) as u16)
            } else {
                None
            };
            port_number(digits) == expected && port_number(seq!['+'] + digits) == expected
        },
{
    let signed = seq!['+'] + digits;
    assert(signed.skip(1) =~= digits);
    if all_digits(digits) {
        assert(digit(digits[0]));
    }
}

/// Each text of a list is that of the entry at the same place.
pub proof fn texts_entry_by_entry(v: Seq<&[char]>, w: Seq<String>, i: int)
    ensures
        texts(v).len() == v.len(),
        strings_view(w).len() == w.len(),
        0 <= i < v.len() ==> texts(v)[i] == v[i]@,
        0 <= i < w.len() ==> strings_view(w)[i] == w[i]@,
{
}

} // verus!
