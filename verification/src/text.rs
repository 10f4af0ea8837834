//! Text as sequences of characters: splitting, searching and reading decimal
//! numbers, each stated over `Seq<char>`.
use vstd::prelude::*;

verus! {

/// `String::push` of std appends one character.
pub assume_specification[ String::push ](s: &mut String, ch: char)
    ensures
        final(s)@ == old(s)@.push(ch),
;

/// Whether `c` is an uppercase character, as std's `char::is_uppercase`
/// tells: the characters with the Unicode property `Uppercase`.
pub uninterp spec fn uppercase(c: char) -> bool;

/// `char::is_uppercase` of std. The result is the one that `uppercase`
/// names.
pub assume_specification[ char::is_uppercase ](c: char) -> (upper: bool)
    ensures
        upper == uppercase(c),
;

/// The text of each string of a list.
pub open spec fn strings_view(strings: Seq<String>) -> Seq<Seq<char>> {
    Seq::new(strings.len(), |i: int| strings[i]@)
}

/// The text of an optional string.
pub open spec fn opt_string_view(s: Option<String>) -> Option<Seq<char>> {
    match s {
        Some(s) => Some(s@),
        None => None,
    }
}

/// The text of an optional string slice.
pub open spec fn opt_str_view(s: Option<&str>) -> Option<Seq<char>> {
    match s {
        Some(s) => Some(s@),
        None => None,
    }
}

/// The pieces of `s` between occurrences of `sep`. A text with `n`
/// separators has `n + 1` pieces, some of them possibly empty.
pub open spec fn split_on(s: Seq<char>, sep: char) -> Seq<Seq<char>>
    decreases s.len(),
{
    if s.len() == 0 {
        seq![Seq::<char>::empty()]
    } else {
        let before = split_on(s.drop_last(), sep);
        if s.last() == sep {
            before.push(Seq::<char>::empty())
        } else {
            before.drop_last().push(before.last().push(s.last()))
        }
    }
}

/// The pieces joined again, with `sep` between neighbours.
pub open spec fn join_with(pieces: Seq<Seq<char>>, sep: char) -> Seq<char>
    decreases pieces.len(),
{
    if pieces.len() == 0 {
        Seq::<char>::empty()
    } else if pieces.len() == 1 {
        pieces[0]
    } else {
        join_with(pieces.drop_last(), sep).push(sep) + pieces.last()
    }
}

/// `needle` occurs in `hay` as a contiguous run.
pub open spec fn contains_text(hay: Seq<char>, needle: Seq<char>) -> bool {
    exists|i: int| occurs_at(hay, needle, i)
}

/// `needle` occurs in `hay` at position `i`.
pub open spec fn occurs_at(hay: Seq<char>, needle: Seq<char>, i: int) -> bool {
    0 <= i && i + needle.len() <= hay.len() && hay.subrange(i, i + needle.len()) == needle
}

/// The value of one decimal digit.
pub open spec fn digit_value(c: char) -> Option<nat> {
    if '0' <= c && c <= '9' {
        Some((c as int - '0' as int) as nat)
    } else {
        None
    }
}

/// The number that a run of decimal digits writes; the empty run writes 0.
pub open spec fn digits_value(s: Seq<char>) -> Option<nat>
    decreases s.len(),
{
    if s.len() == 0 {
        Some(0)
    } else {
        match (digits_value(s.drop_last()), digit_value(s.last())) {
            (Some(high), Some(low)) => Some(high * 10 + low),
            _ => None,
        }
    }
}

/// The number that `s` writes in decimal: one or more digits, with an
/// optional `+` in front. Anything else writes no number.
pub open spec fn decimal_value(s: Seq<char>) -> Option<nat> {
    let digits = if s.len() > 0 && s[0] == '+' {
        s.skip(1)
    } else {
        s
    };
    if digits.len() == 0 {
        None
    } else {
        digits_value(digits)
    }
}

/// The character that writes the digit `d`.
pub open spec fn digit_char(d: nat) -> char
    recommends
        d < 10,
{
    (d + '0' as nat) as char
}

/// `n` in decimal, without leading zeros.
pub open spec fn decimal_digits(n: nat) -> Seq<char>
    decreases n,
{
    if n < 10 {
        seq![digit_char(n)]
    } else {
        decimal_digits(n / 10).push(digit_char(n % 10))
    }
}

/// The result of reading `s` as an index: its decimal value where that fits
/// the machine word.
pub open spec fn index_value(s: Seq<char>) -> Option<usize> {
    match decimal_value(s) {
        Some(n) => if n <= usize::MAX {
            Some(n as usize)
        } else {
            None
        },
        None => None,
    }
}

/// Every piece of a split is free of the separator, and joining the pieces
/// gives the text back.
pub proof fn lemma_split_join(s: Seq<char>, sep: char)
    ensures
        split_on(s, sep).len() >= 1,
        forall|k: int| 0 <= k < split_on(s, sep).len() ==> !(#[trigger] split_on(s, sep)[k]).contains(sep),
        join_with(split_on(s, sep), sep) == s,
    decreases s.len(),
{
    if s.len() == 0 {
        assert(split_on(s, sep) =~= seq![Seq::<char>::empty()]);
        assert(join_with(split_on(s, sep), sep) =~= s);
    } else {
        let init = s.drop_last();
        let before = split_on(init, sep);
        lemma_split_join(init, sep);
        let pieces = split_on(s, sep);
        if s.last() == sep {
            assert(pieces.drop_last() =~= before);
            assert(join_with(pieces, sep) =~= init.push(sep));
            assert(init.push(sep) =~= s);
        } else {
            let grown = before.last().push(s.last());
            assert forall|k: int| 0 <= k < pieces.len() implies !(#[trigger] pieces[k]).contains(sep) by {
                if k == pieces.len() - 1 {
                    assert(pieces[k] == grown);
                    if grown.contains(sep) {
                        let j = choose|j: int| 0 <= j < grown.len() && grown[j] == sep;
                        assert(before.last()[j] == sep);
                        assert(before.last().contains(sep));
                        assert(before[before.len() - 1].contains(sep));
                    }
                } else {
                    assert(pieces[k] == before[k]);
                }
            }
            if before.len() == 1 {
                assert(join_with(before, sep) == before[0]);
                assert(join_with(pieces, sep) == grown);
                assert(grown =~= s);
            } else {
                assert(pieces.drop_last() =~= before.drop_last());
                let head = join_with(before.drop_last(), sep).push(sep);
                assert(join_with(before, sep) == head + before.last());
                assert(join_with(pieces, sep) == head + grown);
                assert(head + grown =~= (head + before.last()).push(s.last()));
                assert(init.push(s.last()) =~= s);
            }
        }
    }
}

/// A run of digits writes at least what any of its prefixes writes.
pub proof fn lemma_digits_value_prefix(s: Seq<char>, k: int)
    requires
        0 <= k <= s.len(),
        digits_value(s) is Some,
    ensures
        digits_value(s.take(k)) is Some,
        digits_value(s.take(k))->0 <= digits_value(s)->0,
    decreases s.len(),
{
    if k == s.len() {
        assert(s.take(k) =~= s);
    } else {
        lemma_digits_value_prefix(s.drop_last(), k);
        assert(s.drop_last().take(k) =~= s.take(k));
    }
}

/// What is written in decimal reads back as the same number.
pub proof fn lemma_decimal_round_trip(n: nat)
    ensures
        decimal_digits(n).len() >= 1,
        decimal_digits(n)[0] != '+',
        digits_value(decimal_digits(n)) == Some(n),
        decimal_value(decimal_digits(n)) == Some(n),
    decreases n,
{
    if n < 10 {
        let digits = decimal_digits(n);
        assert(digits.drop_last() =~= Seq::<char>::empty());
        assert(digits_value(digits.drop_last()) == Some(0nat));
        assert(digit_value(digits.last()) == Some(n));
    } else {
        lemma_decimal_round_trip(n / 10);
        let digits = decimal_digits(n);
        assert(digits.drop_last() =~= decimal_digits(n / 10));
        assert(digit_value(digits.last()) == Some(n % 10));
        assert(digits[0] == decimal_digits(n / 10)[0]);
    }
}

/// Writes `n` in decimal.
pub fn decimal_text(n: u32) -> (text: String)
    ensures
        text@ == decimal_digits(n as nat),
        decimal_value(text@) == Some(n as nat),
{
    let mut reversed: Vec<char> = Vec::new();
    let mut rest: u32 = n;
    proof {
        assert(decimal_digits(n as nat) + reversed@.reverse() =~= decimal_digits(n as nat));
    }
    while rest >= 10
        invariant
            decimal_digits(n as nat) == decimal_digits(rest as nat) + reversed@.reverse(),
        decreases rest,
    {
        let digit = char_of_digit((rest % 10) as u8);
        proof {
            let before = reversed@;
            assert(decimal_digits(rest as nat) == decimal_digits((rest / 10) as nat).push(digit));
            assert(before.push(digit).reverse() =~= seq![digit] + before.reverse());
            assert(decimal_digits((rest / 10) as nat).push(digit) + before.reverse()
                =~= decimal_digits((rest / 10) as nat) + (seq![digit] + before.reverse()));
        }
        reversed.push(digit);
        rest = rest / 10;
    }
    let first = char_of_digit(rest as u8);
    let mut text = String::new();
    text.push(first);
    let mut left: usize = reversed.len();
    proof {
        assert(decimal_digits(rest as nat) =~= seq![first]);
        assert(reversed@.reverse().take(0) =~= Seq::<char>::empty());
    }
    while left > 0
        invariant
            left <= reversed.len(),
            text@ == seq![first] + reversed@.reverse().take(reversed.len() - left),
        decreases left,
    {
        left -= 1;
        text.push(reversed[left]);
        proof {
            let back = reversed@.reverse();
            let done = reversed.len() - left;
            assert(back.take(done) =~= back.take(done - 1).push(back[done - 1]));
            assert(back[done - 1] == reversed@[left as int]);
            assert((seq![first] + back.take(done - 1)).push(back[done - 1]) =~= seq![first] + back.take(
                done,
            ));
        }
    }
    proof {
        assert(reversed@.reverse().take(reversed.len() as int) =~= reversed@.reverse());
        lemma_decimal_round_trip(n as nat);
    }
    text
}

/// The character that writes a digit: the digits follow `0`, whose code is
/// 48, in their order.
fn char_of_digit(d: u8) -> (c: char)
    requires
        d < 10,
    ensures
        c == digit_char(d as nat),
{
    (48u8 + d) as char
}

/// The characters of `s`, in order.
pub fn chars_of(s: &str) -> (chars: Vec<char>)
    ensures
        chars@ == s@,
{
    let mut chars: Vec<char> = Vec::new();
    for c in it: s.chars()
        invariant
            it.seq() == s@,
            chars@ == s@.take(it.index()),
    {
        chars.push(c);
        proof {
            assert(s@.take(it.index() + 1) =~= s@.take(it.index()).push(s@[it.index()]));
        }
    }
    assert(s@.take(s@.len() as int) =~= s@);
    chars
}

/// The string made of `chars[from..to]`.
pub fn string_of_range(chars: &Vec<char>, from: usize, to: usize) -> (s: String)
    requires
        from <= to <= chars.len(),
    ensures
        s@ == chars@.subrange(from as int, to as int),
{
    let mut s = String::new();
    let mut i: usize = from;
    while i < to
        invariant
            from <= i <= to <= chars.len(),
            s@ == chars@.subrange(from as int, i as int),
        decreases to - i,
    {
        s.push(chars[i]);
        i += 1;
        assert(chars@.subrange(from as int, i as int) =~= chars@.subrange(from as int, i - 1).push(
            chars@[i - 1],
        ));
    }
    s
}

/// The string made of `chars`.
pub fn string_of(chars: &Vec<char>) -> (s: String)
    ensures
        s@ == chars@,
{
    let s = string_of_range(chars, 0, chars.len());
    assert(chars@.subrange(0, chars.len() as int) =~= chars@);
    s
}

/// Splits `text` at every `sep`.
pub fn split(text: &str, sep: char) -> (pieces: Vec<String>)
    ensures
        strings_view(pieces@) == split_on(text@, sep),
{
    let chars = chars_of(text);
    let mut pieces: Vec<String> = Vec::new();
    let mut start: usize = 0;
    let mut i: usize = 0;
    proof {
        assert(chars@.take(0) =~= Seq::<char>::empty());
        assert(strings_view(pieces@).push(chars@.subrange(0, 0)) =~= seq![Seq::<char>::empty()]);
    }
    while i < chars.len()
        invariant
            start <= i <= chars.len(),
            chars@ == text@,
            split_on(chars@.take(i as int), sep) == strings_view(pieces@).push(
                chars@.subrange(start as int, i as int),
            ),
        decreases chars.len() - i,
    {
        let ghost before = chars@.take(i as int);
        let ghost done = strings_view(pieces@);
        proof {
            assert(chars@.take(i + 1).drop_last() =~= before);
            assert(done.push(chars@.subrange(start as int, i as int)).drop_last() =~= done);
        }
        if chars[i] == sep {
            let piece = string_of_range(&chars, start, i);
            pieces.push(piece);
            start = i + 1;
            proof {
                assert(strings_view(pieces@) =~= done.push(piece@));
                assert(chars@.subrange(start as int, i + 1) =~= Seq::<char>::empty());
            }
        } else {
            proof {
                assert(chars@.subrange(start as int, i + 1) =~= chars@.subrange(
                    start as int,
                    i as int,
                ).push(chars@[i as int]));
            }
        }
        i += 1;
    }
    let ghost done = strings_view(pieces@);
    let last = string_of_range(&chars, start, chars.len());
    pieces.push(last);
    proof {
        assert(chars@.take(chars.len() as int) =~= chars@);
        assert(strings_view(pieces@) =~= done.push(last@));
    }
    pieces
}

/// Whether `needle` starts at position `at` of `hay`.
fn starts_at(hay: &Vec<char>, needle: &Vec<char>, at: usize) -> (found: bool)
    requires
        at + needle.len() <= hay.len(),
    ensures
        found == occurs_at(hay@, needle@, at as int),
{
    let mut j: usize = 0;
    while j < needle.len()
        invariant
            j <= needle.len(),
            at + needle.len() <= hay.len(),
            forall|k: int| 0 <= k < j ==> hay@[at + k] == needle@[k],
        decreases needle.len() - j,
    {
        if hay[at + j] != needle[j] {
            assert(hay@.subrange(at as int, at + needle.len())[j as int] != needle@[j as int]);
            return false;
        }
        j += 1;
    }
    assert(hay@.subrange(at as int, at + needle.len()) =~= needle@);
    true
}

/// Whether `needle` occurs in `hay`.
pub fn contains(hay: &str, needle: &str) -> (found: bool)
    ensures
        found == contains_text(hay@, needle@),
{
    let text = chars_of(hay);
    let word = chars_of(needle);
    if word.len() > text.len() {
        return false;
    }
    if word.len() == 0 {
        assert(text@.subrange(0, 0) =~= word@);
        assert(occurs_at(text@, word@, 0));
        return true;
    }
    let last: usize = text.len() - word.len();
    let mut i: usize = 0;
    while i <= last
        invariant
            i <= last + 1,
            last == text.len() - word.len(),
            last < text.len(),
            text@ == hay@,
            word@ == needle@,
            forall|k: int| 0 <= k < i ==> !occurs_at(text@, word@, k),
        decreases last + 1 - i,
    {
        if starts_at(&text, &word, i) {
            return true;
        }
        i += 1;
    }
    false
}

/// Whether the character `c` occurs in `hay`.
pub fn contains_char(hay: &str, c: char) -> (found: bool)
    ensures
        found == hay@.contains(c),
{
    let text = chars_of(hay);
    let mut i: usize = 0;
    while i < text.len()
        invariant
            i <= text.len(),
            text@ == hay@,
            forall|k: int| 0 <= k < i ==> text@[k] != c,
        decreases text.len() - i,
    {
        if text[i] == c {
            assert(hay@[i as int] == c);
            return true;
        }
        i += 1;
    }
    false
}

/// The part of `text` after its last `sep`; all of it where there is none.
pub fn last_piece(text: &str, sep: char) -> (piece: String)
    ensures
        piece@ == split_on(text@, sep).last(),
{
    let chars = chars_of(text);
    let mut start: usize = chars.len();
    while start > 0 && chars[start - 1] != sep
        invariant
            start <= chars.len(),
            forall|k: int| start <= k < chars.len() ==> chars@[k] != sep,
        decreases start,
    {
        start -= 1;
    }
    proof {
        lemma_last_piece(chars@, sep, start as int);
    }
    string_of_range(&chars, start, chars.len())
}

/// Where no `sep` stands at or after `start`, and one stands just before it
/// (or `start` is 0), the last piece of the split begins at `start`.
proof fn lemma_last_piece(s: Seq<char>, sep: char, start: int)
    requires
        0 <= start <= s.len(),
        forall|k: int| start <= k < s.len() ==> s[k] != sep,
        start == 0 || s[start - 1] == sep,
    ensures
        split_on(s, sep).len() >= 1,
        split_on(s, sep).last() == s.subrange(start, s.len() as int),
    decreases s.len(),
{
    if s.len() == 0 {
        assert(s.subrange(start, s.len() as int) =~= Seq::<char>::empty());
    } else if start == s.len() {
        assert(s.subrange(start, s.len() as int) =~= Seq::<char>::empty());
        lemma_split_join(s.drop_last(), sep);
    } else {
        lemma_last_piece(s.drop_last(), sep, start);
        assert(s.subrange(start, s.len() as int) =~= s.drop_last().subrange(
            start,
            s.len() - 1,
        ).push(s.last()));
    }
}

/// Reads `text` as an index: decimal digits with an optional `+` in front.
/// `None` where it is not such a number or the number does not fit.
pub fn parse_index(text: &str) -> (index: Option<usize>)
    ensures
        index == index_value(text@),
{
    let chars = chars_of(text);
    let first: usize = if chars.len() > 0 && chars[0] == '+' {
        1
    } else {
        0
    };
    if first == chars.len() {
        return None;
    }
    let ghost digits = chars@.skip(first as int);
    let mut value: usize = 0;
    let mut i: usize = first;
    proof {
        assert(digits.take(0) =~= Seq::<char>::empty());
        assert(first == 0 ==> digits =~= chars@);
    }
    while i < chars.len()
        invariant
            first <= i <= chars.len(),
            chars@ == text@,
            digits == chars@.skip(first as int),
            decimal_value(text@) == digits_value(digits),
            digits_value(digits.take(i - first)) == Some(value as nat),
        decreases chars.len() - i,
    {
        let c = chars[i];
        proof {
            assert(digits.take(i + 1 - first).drop_last() =~= digits.take(i - first));
            assert(digits.take(i + 1 - first).last() == c);
            if digits_value(digits) is Some {
                lemma_digits_value_prefix(digits, i + 1 - first);
            }
        }
        if c < '0' || c > '9' {
            return None;
        }
        let low: usize = (c as u32 - '0' as u32) as usize;
        if value > (usize::MAX - low) / 10 {
            return None;
        }
        value = value * 10 + low;
        i += 1;
    }
    proof {
        assert(digits.take(chars.len() - first) =~= digits);
    }
    Some(value)
}

} // verus!
