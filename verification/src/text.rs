//! Small text utilities shared by the parsers: character access, newline
//! stripping, decimal numbers, prefixes and splitting on a separator.

use vstd::prelude::*;
use vstd::string::*;
use crate::seqs::lemma_push_contains;

verus! {

/// `String::push` of std appends one character to the end of the string.
pub assume_specification[ String::push ](s: &mut String, c: char)
    ensures
        final(s)@ == old(s)@.push(c),
;

/// The text of each string of `v`, in order.
pub open spec fn texts(v: Seq<String>) -> Seq<Seq<char>> {
    Seq::new(v.len(), |i: int| v[i]@)
}

/// `s` with every line feed removed.
pub open spec fn without_newlines(s: Seq<char>) -> Seq<char>
    decreases s.len(),
{
    if s.len() == 0 {
        s
    } else if s.last() == '\n' {
        without_newlines(s.drop_last())
    } else {
        without_newlines(s.drop_last()).push(s.last())
    }
}

/// `s` without the run of `c` at its end.
pub open spec fn trim_trailing(s: Seq<char>, c: char) -> Seq<char>
    decreases s.len(),
{
    if s.len() > 0 && s.last() == c {
        trim_trailing(s.drop_last(), c)
    } else {
        s
    }
}

/// `s` without `prefix` at its start, or `s` itself where it does not start
/// with `prefix`.
pub open spec fn strip_prefix(s: Seq<char>, prefix: Seq<char>) -> Seq<char> {
    if prefix.is_prefix_of(s) {
        s.skip(prefix.len() as int)
    } else {
        s
    }
}

/// The fields of `s` between occurrences of `sep`. There is always at least
/// one field; a separator at either end gives an empty field there.
pub open spec fn split_on(s: Seq<char>, sep: char) -> Seq<Seq<char>>
    decreases s.len(),
{
    if s.len() == 0 {
        seq![Seq::<char>::empty()]
    } else {
        let init = split_on(s.drop_last(), sep);
        if s.last() == sep {
            init.push(Seq::<char>::empty())
        } else {
            init.drop_last().push(init.last().push(s.last()))
        }
    }
}

/// The fields with `sep` between them.
pub open spec fn joined(fields: Seq<Seq<char>>, sep: char) -> Seq<char>
    decreases fields.len(),
{
    if fields.len() == 0 {
        Seq::empty()
    } else if fields.len() == 1 {
        fields[0]
    } else {
        joined(fields.drop_last(), sep).push(sep) + fields.last()
    }
}

/// Splitting cuts a text into fields that hold no separator and that give
/// the text back when they are joined with it.
pub proof fn lemma_split(s: Seq<char>, sep: char)
    ensures
        split_on(s, sep).len() >= 1,
        joined(split_on(s, sep), sep) == s,
        forall|i: int| 0 <= i < split_on(s, sep).len() ==> !(#[trigger] split_on(s, sep)[i]).contains(sep),
    decreases s.len(),
{
    let fields = split_on(s, sep);
    if s.len() == 0 {
        assert(fields[0] =~= Seq::<char>::empty());
        assert(!fields[0].contains(sep));
    } else {
        let front = s.drop_last();
        let init = split_on(front, sep);
        lemma_split(front, sep);
        assert(front.push(s.last()) =~= s);
        if s.last() == sep {
            assert(fields.drop_last() =~= init);
            assert(joined(fields, sep) =~= s);
            assert forall|i: int| 0 <= i < fields.len() implies !(#[trigger] fields[i]).contains(
                sep,
            ) by {
                if i < init.len() {
                    assert(fields[i] == init[i]);
                }
            }
        } else {
            let tail = init.last().push(s.last());
            if init.len() > 1 {
                assert(fields.drop_last() =~= init.drop_last());
                assert(joined(fields, sep) =~= joined(init, sep).push(s.last()));
            }
            assert(joined(fields, sep) =~= s);
            assert forall|i: int| 0 <= i < fields.len() implies !(#[trigger] fields[i]).contains(
                sep,
            ) by {
                if i < init.len() - 1 {
                    assert(fields[i] == init[i]);
                } else {
                    lemma_push_contains(init.last(), s.last(), sep);
                    assert(init[init.len() - 1] == init.last());
                }
            }
        }
    }
}

/// Whether `c` is one of the ten decimal digits.
pub open spec fn is_digit(c: char) -> bool {
    '0' <= c && c <= '9'
}

/// The number that the digit `c` stands for.
pub open spec fn digit_value(c: char) -> nat {
    (c as u32 - '0' as u32) as nat
}

/// The number that the decimal digits `s` write.
pub open spec fn decimal(s: Seq<char>) -> nat
    decreases s.len(),
{
    if s.len() == 0 {
        0
    } else {
        decimal(s.drop_last()) * 10 + digit_value(s.last())
    }
}

/// Whether `s` is made of decimal digits alone.
pub open spec fn all_digits(s: Seq<char>) -> bool {
    forall|i: int| 0 <= i < s.len() ==> is_digit(#[trigger] s[i])
}

/// `s` without one leading plus sign.
pub open spec fn unsigned_part(s: Seq<char>) -> Seq<char> {
    if s.len() > 0 && s[0] == '+' {
        s.drop_first()
    } else {
        s
    }
}

/// The value of `s` read as an unsigned decimal number of 64 bits: an
/// optional plus sign, then one or more digits. Anything else, and a number
/// that does not fit, has no value.
pub open spec fn parsed_u64(s: Seq<char>) -> Option<u64> {
    let digits = unsigned_part(s);
    if digits.len() > 0 && all_digits(digits) && decimal(digits) <= u64::MAX {
        Some(decimal(digits) as u64)
    } else {
        None
    }
}

/// A number never gets smaller when digits are written after it.
pub proof fn lemma_decimal_prefix(s: Seq<char>, k: int)
    requires
        0 <= k <= s.len(),
    ensures
        decimal(s.take(k)) <= decimal(s),
    decreases s.len(),
{
    if k == s.len() {
        assert(s.take(k) =~= s);
    } else {
        lemma_decimal_prefix(s.drop_last(), k);
        assert(s.drop_last().take(k) =~= s.take(k));
    }
}

/// The characters of `s`, in order.
pub fn to_chars(s: &str) -> (out: Vec<char>)
    ensures
        out@ == s@,
{
    let mut out: Vec<char> = Vec::new();
    for c in it: s.chars()
        invariant
            it.seq() == s@,
            out@ == it.seq().take(it.index()),
    {
        out.push(c);
        assert(out@ =~= it.seq().take(it.index() + 1));
    }
    assert(out@ =~= s@);
    out
}

/// The string made of the characters `from..to` of `chars`.
pub fn from_chars(chars: &Vec<char>, from: usize, to: usize) -> (out: String)
    requires
        from <= to <= chars.len(),
    ensures
        out@ == chars@.subrange(from as int, to as int),
{
    let mut out = String::new();
    let mut i: usize = from;
    while i < to
        invariant
            from <= i <= to <= chars.len(),
            out@ == chars@.subrange(from as int, i as int),
        decreases to - i,
    {
        out.push(chars[i]);
        i += 1;
        assert(out@ =~= chars@.subrange(from as int, i as int));
    }
    out
}

/// Removes every line feed from `input`.
pub fn sanitize_string(input: String) -> (out: String)
    ensures
        out@ == without_newlines(input@),
{
    let chars = to_chars(input.as_str());
    let mut out = String::new();
    let mut i: usize = 0;
    while i < chars.len()
        invariant
            i <= chars.len(),
            chars@ == input@,
            out@ == without_newlines(chars@.take(i as int)),
        decreases chars.len() - i,
    {
        let c = chars[i];
        assert(chars@.take(i + 1).drop_last() =~= chars@.take(i as int));
        if c != '\n' {
            out.push(c);
        }
        i += 1;
    }
    assert(chars@.take(i as int) =~= chars@);
    out
}

/// Reads `s` as an unsigned decimal number.
pub fn parse_u64(s: &str) -> (out: Option<u64>)
    ensures
        out == parsed_u64(s@),
{
    let chars = to_chars(s);
    let start: usize = if chars.len() > 0 && chars[0] == '+' { 1 } else { 0 };
    let ghost digits = unsigned_part(s@);
    assert(digits =~= chars@.skip(start as int));
    if start == chars.len() {
        return None;
    }
    let mut value: u64 = 0;
    let mut i: usize = start;
    while i < chars.len()
        invariant
            start <= i <= chars.len(),
            digits == chars@.skip(start as int),
            digits == unsigned_part(s@),
            all_digits(digits.take(i - start)),
            value == decimal(digits.take(i - start)),
        decreases chars.len() - i,
    {
        let c = chars[i];
        assert(c == digits[i - start]);
        if !('0' <= c && c <= '9') {
            assert(!is_digit(digits[i - start]));
            return None;
        }
        let d: u32 = c as u32 - '0' as u32;
        let next: u128 = (value as u128) * 10 + (d as u128);
        proof {
            assert(digits.take(i - start + 1).drop_last() =~= digits.take(i - start));
            assert(next == decimal(digits.take(i - start + 1)));
            lemma_decimal_prefix(digits, i - start + 1);
        }
        if next > u64::MAX as u128 {
            return None;
        }
        value = next as u64;
        i += 1;
    }
    assert(digits.take(i - start) =~= digits);
    Some(value)
}

/// Where the rest of `s` begins once `prefix` is taken from its start: the
/// length of `prefix` where `s` starts with it, 0 where it does not.
pub fn prefix_end(s: &Vec<char>, prefix: &Vec<char>) -> (at: usize)
    ensures
        at <= s.len(),
        s@.skip(at as int) == strip_prefix(s@, prefix@),
{
    if prefix.len() > s.len() {
        assert(s@.skip(0) =~= s@);
        return 0;
    }
    let mut i: usize = 0;
    while i < prefix.len()
        invariant
            i <= prefix.len() <= s.len(),
            s@.take(i as int) == prefix@.take(i as int),
        decreases prefix.len() - i,
    {
        if s[i] != prefix[i] {
            assert(s@.skip(0) =~= s@);
            assert(!prefix@.is_prefix_of(s@)) by {
                if prefix@.is_prefix_of(s@) {
                    assert(s@.subrange(0, prefix@.len() as int)[i as int] == prefix@[i as int]);
                }
            }
            return 0;
        }
        i += 1;
        assert(s@.take(i as int) =~= prefix@.take(i as int));
    }
    assert(prefix@.take(i as int) =~= prefix@);
    assert(s@.take(i as int) =~= s@.subrange(0, prefix@.len() as int));
    i
}

/// How many characters of `s` are left once the run of `c` at its end is
/// taken away.
pub fn trimmed_len(s: &Vec<char>, c: char) -> (n: usize)
    ensures
        n <= s.len(),
        s@.take(n as int) == trim_trailing(s@, c),
{
    let mut n: usize = s.len();
    assert(s@.take(n as int) =~= s@);
    while n > 0 && s[n - 1] == c
        invariant
            n <= s.len(),
            trim_trailing(s@.take(n as int), c) == trim_trailing(s@, c),
        decreases n,
    {
        assert(s@.take(n as int).drop_last() =~= s@.take(n - 1));
        n -= 1;
    }
    n
}

/// Splits the characters `from..` of `s` at each `sep`.
pub fn split_from(s: &Vec<char>, from: usize, sep: char) -> (out: Vec<String>)
    requires
        from <= s.len(),
    ensures
        texts(out@) == split_on(s@.skip(from as int), sep),
        out.len() >= 1,
{
    let ghost rest = s@.skip(from as int);
    let mut fields: Vec<String> = Vec::new();
    let mut current = String::new();
    let mut i: usize = from;
    assert(texts(fields@).push(current@) =~= split_on(rest.take(0), sep));
    while i < s.len()
        invariant
            from <= i <= s.len(),
            rest == s@.skip(from as int),
            texts(fields@).push(current@) == split_on(rest.take(i - from), sep),
        decreases s.len() - i,
    {
        let c = s[i];
        let ghost before = texts(fields@).push(current@);
        assert(rest.take(i - from + 1).drop_last() =~= rest.take(i - from));
        assert(rest.take(i - from + 1).last() == c);
        if c == sep {
            fields.push(current);
            current = String::new();
            assert(texts(fields@).push(current@) =~= before.push(Seq::<char>::empty()));
        } else {
            current.push(c);
            assert(texts(fields@).push(current@) =~= before.drop_last().push(
                before.last().push(c),
            ));
        }
        i += 1;
    }
    assert(rest.take(i - from) =~= rest);
    let ghost before = texts(fields@).push(current@);
    fields.push(current);
    assert(texts(fields@) =~= before);
    fields
}

} // verus!
