//! Text primitives used by the report renderer: character access, decimal
//! numerals and joining.

use vstd::prelude::*;
use vstd::std_specs::iter::IteratorSpec;

verus! {

/// `String::push` appends one character to the end of the string.
pub assume_specification[ String::push ](s: &mut String, ch: char)
    ensures
        final(s)@ == old(s)@.push(ch),
;

/// The characters of `s`, in order.
pub fn chars_of(s: &str) -> (out: Vec<char>)
    ensures
        out@ == s@,
{
    broadcast use vstd::string::axiom_spec_iter, vstd::string::next_postcondition;

    let mut out: Vec<char> = Vec::new();
    let mut it = s.chars();
    loop
        invariant
            it.obeys_prophetic_iter_laws(),
            it.decrease() is Some,
            out@ + it.remaining() == s@,
        decreases it.decrease()->0,
    {
        match it.next() {
            Some(c) => {
                out.push(c);
                assert(out@ + it.remaining() =~= s@);
            },
            None => {
                assert(out@ =~= s@);
                return out;
            },
        }
    }
}

/// The character for the last decimal digit of a natural number.
pub open spec fn digit(d: int) -> char {
    let last = d % 10;
    if last == 0 {
        '0'
    } else if last == 1 {
        '1'
    } else if last == 2 {
        '2'
    } else if last == 3 {
        '3'
    } else if last == 4 {
        '4'
    } else if last == 5 {
        '5'
    } else if last == 6 {
        '6'
    } else if last == 7 {
        '7'
    } else if last == 8 {
        '8'
    } else {
        '9'
    }
}

/// The decimal numeral of a natural number, without leading zeros.
pub open spec fn decimal(n: nat) -> Seq<char>
    decreases n,
{
    if n < 10 {
        seq![digit(n as int)]
    } else {
        decimal(n / 10).push(digit((n % 10) as int))
    }
}

/// The decimal numeral of an integer: a minus sign in front of a negative one.
pub open spec fn signed_decimal(n: int) -> Seq<char> {
    if n < 0 {
        seq!['-'] + decimal((-n) as nat)
    } else {
        decimal(n as nat)
    }
}

/// `count` zeros.
pub open spec fn zeros(count: nat) -> Seq<char> {
    Seq::new(count, |i: int| '0')
}

/// The decimal numeral of an integer, filled with zeros after the sign up to
/// a total of `width` characters. A numeral that is already that long is left
/// as it is.
pub open spec fn padded_decimal(n: int, width: nat) -> Seq<char> {
    let digits = decimal(vstd::math::abs(n));
    let sign = if n < 0 {
        seq!['-']
    } else {
        Seq::<char>::empty()
    };
    if sign.len() + digits.len() >= width {
        sign + digits
    } else {
        sign + zeros((width - sign.len() - digits.len()) as nat) + digits
    }
}

/// The character for the last decimal digit of `d`.
pub fn digit_char(d: u8) -> (c: char)
    ensures
        c == digit(d as int),
{
    let last: u8 = d % 10;
    if last == 0 {
        '0'
    } else if last == 1 {
        '1'
    } else if last == 2 {
        '2'
    } else if last == 3 {
        '3'
    } else if last == 4 {
        '4'
    } else if last == 5 {
        '5'
    } else if last == 6 {
        '6'
    } else if last == 7 {
        '7'
    } else if last == 8 {
        '8'
    } else {
        '9'
    }
}

/// The absolute value of `n`.
pub fn magnitude(n: i64) -> (m: u64)
    ensures
        m == vstd::math::abs(n as int),
{
    if n >= 0 {
        n as u64
    } else {
        let below: u64 = (-(n + 1)) as u64;
        below + 1
    }
}

/// The digits of `n`, most significant first.
pub fn decimal_digits(n: u64) -> (out: Vec<char>)
    ensures
        out@ == decimal(n as nat),
    decreases n,
{
    if n < 10 {
        let mut out: Vec<char> = Vec::new();
        out.push(digit_char(n as u8));
        assert(out@ =~= decimal(n as nat));
        out
    } else {
        let mut out = decimal_digits(n / 10);
        out.push(digit_char((n % 10) as u8));
        out
    }
}

/// Appends every character of `chars` to `out`.
pub fn push_chars(out: &mut String, chars: &Vec<char>)
    ensures
        final(out)@ == old(out)@ + chars@,
{
    let mut i: usize = 0;
    while i < chars.len()
        invariant
            i <= chars.len(),
            out@ == old(out)@ + chars@.subrange(0, i as int),
        decreases chars.len() - i,
    {
        out.push(chars[i]);
        i += 1;
        assert(out@ =~= old(out)@ + chars@.subrange(0, i as int));
    }
    assert(chars@.subrange(0, i as int) =~= chars@);
}

/// Appends the decimal numeral of `n` to `out`.
pub fn push_signed_decimal(out: &mut String, n: i64)
    ensures
        final(out)@ == old(out)@ + signed_decimal(n as int),
{
    if n < 0 {
        out.push('-');
    }
    let digits = decimal_digits(magnitude(n));
    push_chars(out, &digits);
    assert(final(out)@ =~= old(out)@ + signed_decimal(n as int));
}

/// Appends the numeral of `n` to `out`, zero-filled to `width` characters.
pub fn push_padded_decimal(out: &mut String, n: i64, width: usize)
    ensures
        final(out)@ == old(out)@ + padded_decimal(n as int, width as nat),
{
    let digits = decimal_digits(magnitude(n));
    let mut used: usize = digits.len();
    if n < 0 {
        out.push('-');
        used = if used < usize::MAX { used + 1 } else { used };
    }
    let ghost sign = if n < 0 { seq!['-'] } else { Seq::<char>::empty() };
    let ghost start = out@;
    assert(start =~= old(out)@ + sign);
    let mut filled: usize = used;
    while filled < width
        invariant
            used <= filled,
            filled <= width || filled == used,
            out@ == start + zeros((filled - used) as nat),
        decreases width - filled,
    {
        out.push('0');
        filled += 1;
        assert(out@ =~= start + zeros((filled - used) as nat));
    }
    push_chars(out, &digits);
    assert(final(out)@ =~= old(out)@ + padded_decimal(n as int, width as nat));
}

/// The parts in order, with `separator` between each two neighbours.
pub open spec fn joined(parts: Seq<Seq<char>>, separator: Seq<char>) -> Seq<char>
    decreases parts.len(),
{
    if parts.len() == 0 {
        Seq::<char>::empty()
    } else if parts.len() == 1 {
        parts[0]
    } else {
        joined(parts.drop_last(), separator) + separator + parts.last()
    }
}

/// The views of a list of strings.
pub open spec fn views_of(parts: Seq<String>) -> Seq<Seq<char>> {
    Seq::new(parts.len(), |i: int| parts[i]@)
}

/// Joins `parts` into one string, with `separator` between each two
/// neighbours.
pub fn join(parts: &Vec<String>, separator: &str) -> (out: String)
    ensures
        out@ == joined(views_of(parts@), separator@),
{
    let mut out = String::new();
    let mut i: usize = 0;
    while i < parts.len()
        invariant
            i <= parts.len(),
            out@ == joined(views_of(parts@).subrange(0, i as int), separator@),
        decreases parts.len() - i,
    {
        let ghost before = views_of(parts@).subrange(0, i as int);
        let ghost after = views_of(parts@).subrange(0, i + 1);
        assert(after.drop_last() =~= before);
        assert(after.last() == parts@[i as int]@);
        if i > 0 {
            out.append(separator);
        }
        out.append(parts[i].as_str());
        assert(out@ =~= joined(after, separator@));
        i += 1;
    }
    assert(views_of(parts@).subrange(0, i as int) =~= views_of(parts@));
    out
}

/// How often the character `c` occurs in `text`.
pub open spec fn occurrences(text: Seq<char>, c: char) -> nat
    decreases text.len(),
{
    if text.len() == 0 {
        0
    } else {
        occurrences(text.drop_last(), c) + if text.last() == c {
            1nat
        } else {
            0nat
        }
    }
}

/// Whether the character `c` does not occur in `text`.
pub open spec fn free_of(text: Seq<char>, c: char) -> bool {
    forall|i: int| 0 <= i < text.len() ==> text[i] != c
}

/// Whether `c` is one of the ten decimal digits.
pub open spec fn is_digit(c: char) -> bool {
    exists|d: int| 0 <= d < 10 && digit(d) == c
}

/// The occurrences in a concatenation are those of its two parts.
pub proof fn lemma_occurrences_concat(a: Seq<char>, b: Seq<char>, c: char)
    ensures
        occurrences(a + b, c) == occurrences(a, c) + occurrences(b, c),
    decreases b.len(),
{
    if b.len() == 0 {
        assert(a + b =~= a);
    } else {
        lemma_occurrences_concat(a, b.drop_last(), c);
        assert((a + b).drop_last() =~= a + b.drop_last());
    }
}

/// A character that does not occur in a text occurs in it zero times.
pub proof fn lemma_free_of_counts_zero(text: Seq<char>, c: char)
    requires
        free_of(text, c),
    ensures
        occurrences(text, c) == 0,
    decreases text.len(),
{
    if text.len() > 0 {
        lemma_free_of_counts_zero(text.drop_last(), c);
    }
}

/// A numeral holds nothing but digits.
pub proof fn lemma_decimal_holds_digits(n: nat)
    ensures
        decimal(n).len() >= 1,
        forall|i: int| 0 <= i < decimal(n).len() ==> is_digit(#[trigger] decimal(n)[i]),
    decreases n,
{
    if n < 10 {
        assert(is_digit(digit(n as int)));
    } else {
        lemma_decimal_holds_digits(n / 10);
        assert(is_digit(digit((n % 10) as int)));
    }
}

/// A zero-filled numeral holds nothing but digits and, in front of a negative
/// number, one minus sign: any other character does not occur in it.
pub proof fn lemma_padded_decimal_free_of(n: int, width: nat, c: char)
    requires
        !is_digit(c),
        c != '-',
    ensures
        free_of(padded_decimal(n, width), c),
{
    lemma_decimal_holds_digits(vstd::math::abs(n));
    assert(is_digit(digit(0)));
}

/// Parts that are free of the separating character, joined by it, hold it
/// once between each two neighbours: one time less than there are parts.
pub proof fn lemma_joined_counts_parts(parts: Seq<Seq<char>>, c: char)
    requires
        parts.len() >= 1,
        forall|i: int| 0 <= i < parts.len() ==> free_of(#[trigger] parts[i], c),
    ensures
        occurrences(joined(parts, seq![c]), c) + 1 == parts.len(),
    decreases parts.len(),
{
    lemma_free_of_counts_zero(parts.last(), c);
    if parts.len() > 1 {
        lemma_joined_counts_parts(parts.drop_last(), c);
        let head = joined(parts.drop_last(), seq![c]);
        lemma_occurrences_concat(head + seq![c], parts.last(), c);
        lemma_occurrences_concat(head, seq![c], c);
        assert(seq![c].drop_last() =~= Seq::<char>::empty());
        assert(occurrences(seq![c].drop_last(), c) == 0);
        assert(occurrences(seq![c], c) == 1);
    }
}

} // verus!
