//! Reading and writing the short pieces of text that settings, bucket names
//! and statements are made of.

use vstd::prelude::*;

verus! {

/// `String::push` of std: appends the character to the end of the string.
pub assume_specification[ String::push ](s: &mut String, c: char)
    ensures
        final(s)@ == old(s)@.push(c),
;

/// The characters with the Unicode property White_Space.
pub open spec fn is_white_space(c: char) -> bool {
    ||| '\u{9}' <= c <= '\u{d}'
    ||| c == ' '
    ||| c == '\u{85}'
    ||| c == '\u{a0}'
    ||| c == '\u{1680}'
    ||| '\u{2000}' <= c <= '\u{200a}'
    ||| c == '\u{2028}'
    ||| c == '\u{2029}'
    ||| c == '\u{202f}'
    ||| c == '\u{205f}'
    ||| c == '\u{3000}'
}

/// `char::is_whitespace` of std: whether the character has the Unicode property
/// White_Space.
pub assume_specification[ char::is_whitespace ](c: char) -> (white: bool)
    ensures
        white == is_white_space(c),
;

/// `s` without the white space that it starts with.
pub open spec fn trim_start(s: Seq<char>) -> Seq<char>
    decreases s.len(),
{
    if s.len() > 0 && is_white_space(s[0]) {
        trim_start(s.drop_first())
    } else {
        s
    }
}

/// `s` without the white space that it ends with.
pub open spec fn trim_end(s: Seq<char>) -> Seq<char>
    decreases s.len(),
{
    if s.len() > 0 && is_white_space(s.last()) {
        trim_end(s.drop_last())
    } else {
        s
    }
}

/// `s` without the white space around it.
pub open spec fn trim(s: Seq<char>) -> Seq<char> {
    trim_end(trim_start(s))
}

/// The pieces of `s` between the occurrences of `separator`: one more piece than
/// there are occurrences.
pub open spec fn split(s: Seq<char>, separator: char) -> Seq<Seq<char>>
    decreases s.len(),
{
    if s.len() == 0 {
        seq![Seq::empty()]
    } else {
        let pieces = split(s.drop_last(), separator);
        if s.last() == separator {
            pieces.push(Seq::empty())
        } else {
            pieces.drop_last().push(pieces.last().push(s.last()))
        }
    }
}

/// The parts of `parts` in order, with `separator` between each two of them.
pub open spec fn join(parts: Seq<Seq<char>>, separator: Seq<char>) -> Seq<char>
    decreases parts.len(),
{
    if parts.len() == 0 {
        Seq::empty()
    } else if parts.len() == 1 {
        parts[0]
    } else {
        join(parts.drop_last(), separator) + separator + parts.last()
    }
}

/// The characters of a string.
pub fn chars_of(s: &str) -> (chars: Vec<char>)
    ensures
        chars@ == s@,
{
    let mut chars: Vec<char> = Vec::new();
    for c in it: s.chars()
        invariant
            it.seq() == s@,
            chars@ == s@.take(it.index() as int),
    {
        chars.push(c);
    }
    assert(s@.take(s@.len() as int) == s@);
    chars
}

/// The string that `chars` holds from `from` up to `to`.
pub fn string_of(chars: &Vec<char>, from: usize, to: usize) -> (s: String)
    requires
        from <= to <= chars@.len(),
    ensures
        s@ == chars@.subrange(from as int, to as int),
{
    let mut s: String = String::new();
    let mut i: usize = from;
    while i < to
        invariant
            from <= i <= to <= chars@.len(),
            s@ == chars@.subrange(from as int, i as int),
        decreases to - i,
    {
        s.push(chars[i]);
        i = i + 1;
    }
    s
}

/// Whether the two strings hold the same text.
pub fn same_text(a: &str, b: &str) -> (same: bool)
    ensures
        same == (a@ == b@),
{
    let left: String = a.to_owned();
    let right: String = b.to_owned();
    left == right
}

/// `str::trim`: the string without the white space around it.
pub fn trimmed(s: &str) -> (r: String)
    ensures
        r@ == trim(s@),
{
    let chars: Vec<char> = chars_of(s);
    let n: usize = chars.len();
    let mut from: usize = 0;
    assert(chars@.skip(0) == chars@);
    while from < n && chars[from].is_whitespace()
        invariant
            from <= n == chars@.len(),
            trim_start(chars@) == trim_start(chars@.skip(from as int)),
        decreases n - from,
    {
        assert(chars@.skip(from as int).drop_first() == chars@.skip(from + 1));
        from = from + 1;
    }
    let mut to: usize = n;
    assert(chars@.subrange(from as int, n as int) == chars@.skip(from as int));
    while from < to && chars[to - 1].is_whitespace()
        invariant
            from <= to <= n == chars@.len(),
            trim(chars@) == trim_end(chars@.subrange(from as int, to as int)),
        decreases to - from,
    {
        assert(chars@.subrange(from as int, to as int).drop_last() == chars@.subrange(
            from as int,
            to - 1,
        ));
        to = to - 1;
    }
    string_of(&chars, from, to)
}

proof fn lemma_split_has_a_piece(s: Seq<char>, separator: char)
    ensures
        split(s, separator).len() > 0,
    decreases s.len(),
{
    if s.len() > 0 {
        lemma_split_has_a_piece(s.drop_last(), separator);
    }
}

/// `str::split` at a character: the pieces between the separators.
pub fn split_at_char(s: &str, separator: char) -> (pieces: Vec<String>)
    ensures
        pieces.deep_view() == split(s@, separator),
{
    let chars: Vec<char> = chars_of(s);
    let mut pieces: Vec<String> = Vec::new();
    let mut current: String = String::new();
    let mut i: usize = 0;
    assert(pieces.deep_view().push(current@) == split(chars@.take(0), separator));
    while i < chars.len()
        invariant
            i <= chars@.len(),
            pieces.deep_view().push(current@) == split(chars@.take(i as int), separator),
        decreases chars@.len() - i,
    {
        let ghost before = pieces.deep_view();
        let ghost text = current@;
        let ghost next = chars@.take(i + 1);
        assert(next.drop_last() == chars@.take(i as int));
        assert(before.push(text).drop_last() == before);
        let c: char = chars[i];
        if c == separator {
            pieces.push(current);
            current = String::new();
            assert(pieces.deep_view() == before.push(text));
        } else {
            current.push(c);
        }
        i = i + 1;
    }
    assert(chars@.take(i as int) == chars@);
    let ghost before = pieces.deep_view();
    let ghost text = current@;
    pieces.push(current);
    assert(pieces.deep_view() == before.push(text));
    pieces
}

/// The strings in order, with `separator` between each two of them.
pub fn joined(parts: &Vec<String>, separator: &str) -> (s: String)
    ensures
        s@ == join(parts.deep_view(), separator@),
{
    let mut s: String = String::new();
    let mut i: usize = 0;
    while i < parts.len()
        invariant
            i <= parts@.len(),
            s@ == join(parts.deep_view().take(i as int), separator@),
        decreases parts@.len() - i,
    {
        let ghost next = parts.deep_view().take(i + 1);
        assert(next.drop_last() == parts.deep_view().take(i as int));
        if i > 0 {
            s.append(separator);
        }
        s.append(parts[i].as_str());
        i = i + 1;
    }
    assert(parts.deep_view().take(i as int) == parts.deep_view());
    s
}

/// Whether `c` is one of the ten decimal digits.
pub open spec fn is_digit(c: char) -> bool {
    '0' <= c <= '9'
}

/// Whether all of `s` is decimal digits.
pub open spec fn all_digits(s: Seq<char>) -> bool {
    forall|i: int| 0 <= i < s.len() ==> is_digit(#[trigger] s[i])
}

/// The number that a row of decimal digits writes.
pub open spec fn digits_value(s: Seq<char>) -> nat
    decreases s.len(),
{
    if s.len() == 0 {
        0
    } else {
        digits_value(s.drop_last()) * 10 + (s.last() as nat - '0' as nat) as nat
    }
}

/// The digits of a number's text: what is left after one leading plus sign.
pub open spec fn unsigned_digits(s: Seq<char>) -> Seq<char> {
    if s.len() > 0 && s[0] == '+' {
        s.drop_first()
    } else {
        s
    }
}

/// The number that `s` writes: an optional plus sign and one or more decimal
/// digits, up to `max`. Nothing else is a number, and white space is not skipped.
pub open spec fn unsigned(s: Seq<char>, max: nat) -> Option<nat> {
    let digits = unsigned_digits(s);
    if digits.len() > 0 && all_digits(digits) && digits_value(digits) <= max {
        Some(digits_value(digits))
    } else {
        None
    }
}

/// The number `n` in decimal, without leading zeros.
pub open spec fn decimal(n: nat) -> Seq<char>
    decreases n,
{
    let last = ('0' as nat + n % 10) as char;
    if n < 10 {
        seq![last]
    } else {
        decimal(n / 10).push(last)
    }
}

proof fn lemma_digits_value_of_prefix(s: Seq<char>, i: int)
    requires
        0 <= i <= s.len(),
        all_digits(s),
    ensures
        digits_value(s.take(i)) <= digits_value(s),
    decreases s.len() - i,
{
    if i == s.len() {
        assert(s.take(i) == s);
    } else {
        lemma_digits_value_of_prefix(s, i + 1);
        assert(s.take(i + 1).drop_last() == s.take(i));
        assert(is_digit(s[i]));
    }
}

/// `str::parse` to an unsigned integer whose largest value is `max`.
pub fn parse_unsigned(s: &str, max: u64) -> (r: Option<u64>)
    ensures
        match r {
            Some(n) => unsigned(s@, max as nat) == Some(n as nat),
            None => unsigned(s@, max as nat) is None,
        },
{
    let chars: Vec<char> = chars_of(s);
    let start: usize = if chars.len() > 0 && chars[0] == '+' {
        1
    } else {
        0
    };
    let ghost digits = unsigned_digits(s@);
    assert(digits == chars@.skip(start as int));
    if start == chars.len() {
        return None;
    }
    let mut value: u64 = 0;
    let mut i: usize = start;
    while i < chars.len()
        invariant
            start <= i <= chars@.len(),
            start < chars@.len(),
            digits == chars@.skip(start as int),
            digits == unsigned_digits(s@),
            forall|j: int| 0 <= j < i - start ==> is_digit(#[trigger] digits[j]),
            value == digits_value(digits.take(i - start)),
            value <= max,
        decreases chars@.len() - i,
    {
        let c: char = chars[i];
        assert(c == digits[i - start]);
        if c < '0' || c > '9' {
            return None;
        }
        let digit: u64 = c as u64 - 48;
        let ghost next = digits.take(i + 1 - start);
        assert(next.drop_last() == digits.take(i - start));
        assert(digits_value(next) == value * 10 + digit);
        if digit > max || value > (max - digit) / 10 {
            proof {
                assert(value * 10 + digit > max);
                if all_digits(digits) {
                    lemma_digits_value_of_prefix(digits, i + 1 - start);
                }
            }
            return None;
        }
        value = value * 10 + digit;
        i = i + 1;
    }
    assert(digits.take(i - start) == digits);
    Some(value)
}

/// Appends `n` in decimal.
pub fn push_decimal(s: &mut String, n: u64)
    ensures
        final(s)@ == old(s)@ + decimal(n as nat),
    decreases n,
{
    let digit: u8 = (n % 10) as u8;
    if n < 10 {
        s.push((48 + digit) as char);
    } else {
        push_decimal(s, n / 10);
        s.push((48 + digit) as char);
    }
}

/// Reading back what was written in decimal gives the number again, wherever the
/// number is within the bound.
pub proof fn law_decimal_reads_back(n: nat, max: nat)
    requires
        n <= max,
    ensures
        unsigned(decimal(n), max) == Some(n),
{
    lemma_decimal_digits(n);
    assert(is_digit(decimal(n)[0]));
}

/// Two numbers with the same decimal text are the same number.
pub proof fn law_decimal_is_injective(m: nat, n: nat)
    requires
        decimal(m) == decimal(n),
    ensures
        m == n,
{
    law_decimal_reads_back(m, m + n);
    law_decimal_reads_back(n, m + n);
}

proof fn lemma_decimal_digits(n: nat)
    ensures
        decimal(n).len() > 0,
        all_digits(decimal(n)),
        digits_value(decimal(n)) == n,
    decreases n,
{
    let last = ('0' as nat + n % 10) as char;
    assert(is_digit(last) && last as nat - '0' as nat == n % 10);
    if n < 10 {
        let text = decimal(n);
        assert(text.drop_last() == Seq::<char>::empty());
        assert(digits_value(Seq::<char>::empty()) == 0);
    } else {
        lemma_decimal_digits(n / 10);
        assert(decimal(n).drop_last() == decimal(n / 10));
    }
}

/// Splitting a joined list at its separator gives the list again, if it holds
/// something and no part of it holds the separator.
pub proof fn law_split_undoes_join(parts: Seq<Seq<char>>, separator: char)
    requires
        parts.len() > 0,
        forall|i: int| 0 <= i < parts.len() ==> !(#[trigger] parts[i]).contains(separator),
    ensures
        split(join(parts, seq![separator]), separator) == parts,
    decreases parts.len(),
{
    if parts.len() == 1 {
        law_unseparated_text_is_one_piece(parts[0], separator);
        assert(parts == seq![parts[0]]);
    } else {
        let front = parts.drop_last();
        assert forall|i: int| 0 <= i < front.len() implies !(#[trigger] front[i]).contains(
            separator,
        ) by {
            assert(front[i] == parts[i]);
        }
        law_split_undoes_join(front, separator);
        lemma_split_last(join(front, seq![separator]), parts.last(), separator);
        assert(front.push(parts.last()) == parts);
    }
}

/// A text without the separator is one piece.
pub proof fn law_unseparated_text_is_one_piece(s: Seq<char>, separator: char)
    requires
        !s.contains(separator),
    ensures
        split(s, separator) == seq![s],
    decreases s.len(),
{
    if s.len() > 0 {
        assert(s[s.len() - 1] != separator);
        assert forall|i: int| 0 <= i < s.len() - 1 implies s.drop_last()[i] != separator by {
            assert(s[i] != separator);
        }
        law_unseparated_text_is_one_piece(s.drop_last(), separator);
        assert(s.drop_last().push(s.last()) == s);
    } else {
        assert(s == Seq::<char>::empty());
    }
}

proof fn lemma_split_last(front: Seq<char>, last: Seq<char>, separator: char)
    requires
        !last.contains(separator),
    ensures
        split(front + seq![separator] + last, separator) == split(front, separator).push(last),
    decreases last.len(),
{
    let whole = front + seq![separator] + last;
    if last.len() == 0 {
        assert(whole.drop_last() == front);
        assert(last == Seq::<char>::empty());
    } else {
        assert(last[last.len() - 1] != separator);
        assert forall|i: int| 0 <= i < last.len() - 1 implies last.drop_last()[i] != separator by {
            assert(last[i] != separator);
        }
        lemma_split_last(front, last.drop_last(), separator);
        assert(whole.drop_last() == front + seq![separator] + last.drop_last());
        assert(last.drop_last().push(last.last()) == last);
    }
}

/// Trimming a second time changes nothing.
pub proof fn law_trim_is_idempotent(s: Seq<char>)
    ensures
        trim(trim(s)) == trim(s),
{
    lemma_trim_start(s);
    lemma_trim_end(trim_start(s));
}

/// A text that neither starts nor ends with white space is trimmed.
pub proof fn law_trimmed(s: Seq<char>)
    requires
        s.len() > 0,
        !is_white_space(s[0]),
        !is_white_space(s.last()),
    ensures
        trim(s) == s,
{
}

/// All characters of a trimmed text are characters of the text.
pub proof fn law_trim_adds_nothing(s: Seq<char>, c: char)
    requires
        trim(s).contains(c),
    ensures
        s.contains(c),
{
    lemma_trim_end(trim_start(s));
    lemma_trim_start(s);
    let i = trim(s).index_of(c);
    let n = s.len() - trim_start(s).len();
    assert(trim_start(s)[i] == c);
    assert(s[n + i] == c);
}

proof fn lemma_trim_start(s: Seq<char>)
    ensures
        trim_start(s).len() <= s.len(),
        trim_start(s) == s.skip(s.len() - trim_start(s).len()),
        trim_start(s).len() > 0 ==> !is_white_space(trim_start(s)[0]),
        forall|i: int|
            0 <= i < s.len() - trim_start(s).len() ==> is_white_space(#[trigger] s[i]),
    decreases s.len(),
{
    if s.len() > 0 && is_white_space(s[0]) {
        let rest = s.drop_first();
        lemma_trim_start(rest);
        assert forall|i: int| 0 <= i < s.len() - trim_start(s).len() implies is_white_space(
            #[trigger] s[i],
        ) by {
            if i > 0 {
                assert(s[i] == rest[i - 1]);
            }
        }
    }
}

proof fn lemma_trim_end(s: Seq<char>)
    ensures
        trim_end(s).len() <= s.len(),
        trim_end(s) == s.take(trim_end(s).len() as int),
        trim_end(s).len() > 0 ==> !is_white_space(trim_end(s).last()),
        forall|i: int| trim_end(s).len() <= i < s.len() ==> is_white_space(#[trigger] s[i]),
    decreases s.len(),
{
    if s.len() > 0 && is_white_space(s.last()) {
        let rest = s.drop_last();
        lemma_trim_end(rest);
        assert forall|i: int| trim_end(s).len() <= i < s.len() implies is_white_space(
            #[trigger] s[i],
        ) by {
            if i < s.len() - 1 {
                assert(s[i] == rest[i]);
            }
        }
    }
}

/// Trimming cuts off white space at both ends, all of it there is, and nothing else.
pub proof fn law_trim_cuts_white_space(s: Seq<char>)
    ensures
        exists|a: int, b: int|
            {
                &&& 0 <= a <= b <= s.len()
                &&& trim(s) == #[trigger] s.subrange(a, b)
                &&& forall|i: int| 0 <= i < a ==> is_white_space(#[trigger] s[i])
                &&& forall|i: int| b <= i < s.len() ==> is_white_space(#[trigger] s[i])
                &&& a < b ==> !is_white_space(s[a]) && !is_white_space(s[b - 1])
            },
{
    lemma_trim_start(s);
    let started = trim_start(s);
    lemma_trim_end(started);
    let a = s.len() - started.len();
    let b = a + trim(s).len();
    assert(trim(s) =~= s.subrange(a, b));
    assert forall|i: int| b <= i < s.len() implies is_white_space(#[trigger] s[i]) by {
        assert(started[i - a] == s[i]);
    }
}

/// Joining the pieces of a split text gives the text again.
pub proof fn law_join_undoes_split(s: Seq<char>, separator: char)
    ensures
        join(split(s, separator), seq![separator]) == s,
    decreases s.len(),
{
    if s.len() == 0 {
        assert(join(split(s, separator), seq![separator]) =~= s);
    } else {
        let front = s.drop_last();
        let pieces = split(front, separator);
        law_join_undoes_split(front, separator);
        lemma_split_has_a_piece(front, separator);
        let next = split(s, separator);
        assert(front.push(s.last()) =~= s);
        if s.last() == separator {
            assert(next.drop_last() =~= pieces);
            assert(join(next, seq![separator]) =~= front + seq![separator]);
        } else {
            assert(next.drop_last() =~= pieces.drop_last());
            assert(next.last() == pieces.last().push(s.last()));
            if pieces.len() == 1 {
                assert(next[0] == front.push(s.last()));
            } else {
                let before = join(pieces.drop_last(), seq![separator]) + seq![separator];
                assert(before + pieces.last() == front);
                assert(join(next, seq![separator]) == before + next.last());
                assert(before + next.last() =~= front.push(s.last()));
            }
        }
    }
}

/// Splitting two texts with a separator between them gives the pieces of the first and
/// then those of the second.
pub proof fn law_split_at_a_separator(first: Seq<char>, second: Seq<char>, separator: char)
    ensures
        split(first + seq![separator] + second, separator) == split(first, separator) + split(
            second,
            separator,
        ),
    decreases second.len(),
{
    let whole = first + seq![separator] + second;
    if second.len() == 0 {
        assert(whole.drop_last() =~= first);
        assert(split(whole, separator) =~= split(first, separator) + split(second, separator));
    } else {
        let front = second.drop_last();
        law_split_at_a_separator(first, front, separator);
        lemma_split_has_a_piece(front, separator);
        assert(whole.drop_last() =~= first + seq![separator] + front);
        assert(split(whole, separator) =~= split(first, separator) + split(second, separator));
    }
}

/// A digit alone is its number; a further digit makes it ten times as much and adds
/// the digit; and what goes beyond the bound is no number.
pub proof fn law_digits_add_up(s: Seq<char>, c: char, max: nat)
    requires
        '0' <= c <= '9',
    ensures
        ({
            let digit = (c as nat - '0' as nat) as nat;
            &&& unsigned(seq![c], max) == (if digit <= max {
                Some(digit)
            } else {
                None
            })
            &&& unsigned(s, max) matches Some(n) ==> unsigned(s.push(c), max) == (if n * 10 + digit
                <= max {
                Some(n * 10 + digit)
            } else {
                None
            })
        }),
{
    let one = seq![c];
    assert(unsigned_digits(one) == one);
    assert(one.drop_last() == Seq::<char>::empty());
    assert(digits_value(Seq::<char>::empty()) == 0);
    assert(digits_value(one) == (c as nat - '0' as nat) as nat);
    if unsigned(s, max) is Some {
        let digits = unsigned_digits(s);
        let next = unsigned_digits(s.push(c));
        assert(next =~= digits.push(c));
        assert(next.drop_last() =~= digits);
        assert forall|i: int| 0 <= i < next.len() implies is_digit(#[trigger] next[i]) by {
            if i < digits.len() {
                assert(next[i] == digits[i]);
            }
        }
    }
}

/// A plus sign before a number makes no difference; anything else than digits after it
/// makes the text no number, and so does their lack.
pub proof fn law_numbers_are_digits(s: Seq<char>, max: nat, i: int)
    ensures
        s.len() > 0 && s[0] != '+' ==> unsigned(seq!['+'] + s, max) == unsigned(s, max),
        s.len() == 0 ==> unsigned(s, max) is None,
        s == seq!['+'] ==> unsigned(s, max) is None,
        0 <= i < s.len() && !('0' <= s[i] <= '9') && (i > 0 || s[i] != '+') ==> unsigned(
            s,
            max,
        ) is None,
        unsigned(s, max) matches Some(n) ==> n <= max,
{
    if s.len() > 0 && s[0] != '+' {
        assert(unsigned_digits(seq!['+'] + s) =~= s);
    }
    if 0 <= i < s.len() && !('0' <= s[i] <= '9') && (i > 0 || s[i] != '+') {
        let digits = unsigned_digits(s);
        let j = i - (s.len() - digits.len());
        assert(digits[j] == s[i]);
    }
}

/// A number in decimal has no leading zeros: it starts with one only where it is zero.
pub proof fn law_decimal_has_no_leading_zeros(n: nat)
    ensures
        decimal(n).len() > 0,
        decimal(n)[0] == '0' <==> n == 0,
    decreases n,
{
    lemma_decimal_digits(n);
    if n >= 10 {
        law_decimal_has_no_leading_zeros(n / 10);
        lemma_decimal_digits(n / 10);
    } else {
        assert(('0' as nat + n % 10) as char as nat == '0' as nat + n);
    }
}

/// No piece of a split text holds the separator.
pub proof fn law_pieces_hold_no_separator(s: Seq<char>, separator: char, i: int)
    requires
        0 <= i < split(s, separator).len(),
    ensures
        !split(s, separator)[i].contains(separator),
    decreases s.len(),
{
    lemma_split_has_a_piece(s, separator);
    if s.len() > 0 {
        let front = split(s.drop_last(), separator);
        lemma_split_has_a_piece(s.drop_last(), separator);
        if i < front.len() {
            law_pieces_hold_no_separator(s.drop_last(), separator, i);
        }
        if s.last() != separator && i == front.len() - 1 {
            let piece = front.last().push(s.last());
            if piece.contains(separator) {
                let j = piece.index_of(separator);
                assert(front.last()[j] == separator);
            }
        }
    }
}

} // verus!
