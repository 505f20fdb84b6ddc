//! Characters and decimal numbers, as entry names and protocol text hold them.

use vstd::prelude::*;
use vstd::string::StringExecFns;

verus! {

/// The characters of `s`, in order.
pub fn chars_of(s: &str) -> (chars: Vec<char>)
    ensures
        chars@ == s@,
{
    let mut chars: Vec<char> = Vec::new();
    for c in it: s.chars()
        invariant
            it.seq() == s@,
            chars@ == s@.take(it.index() as int),
    {
        chars.push(c);
    }
    chars
}

/// The first position in `from..to` at which `s` holds `c`, or `to` where it
/// holds none there.
pub open spec fn position_in<A>(s: Seq<A>, c: A, from: int, to: int) -> int
    decreases to - from,
{
    if from >= to {
        to
    } else if s[from] == c {
        from
    } else {
        position_in(s, c, from + 1, to)
    }
}

/// `position_in` is the least position of `c` in the window, and the end of the
/// window where `c` does not occur in it.
pub proof fn lemma_position_in<A>(s: Seq<A>, c: A, from: int, to: int)
    requires
        from <= to,
    ensures
        from <= position_in(s, c, from, to) <= to,
        forall|j: int| from <= j < position_in(s, c, from, to) ==> s[j] != c,
        position_in(s, c, from, to) < to ==> s[position_in(s, c, from, to)] == c,
    decreases to - from,
{
    if from < to && s[from] != c {
        lemma_position_in(s, c, from + 1, to);
    }
}

/// A position at which `c` stands, with no `c` between the start of the window
/// and it, is what `position_in` gives.
pub proof fn lemma_position_found<A>(s: Seq<A>, c: A, from: int, to: int, at: int)
    requires
        from <= at < to,
        s[at] == c,
        forall|j: int| from <= j < at ==> s[j] != c,
    ensures
        position_in(s, c, from, to) == at,
    decreases at - from,
{
    if from < at {
        lemma_position_found(s, c, from + 1, to, at);
    }
}

/// Where `c` stands nowhere in the window, `position_in` gives its end.
pub proof fn lemma_position_absent<A>(s: Seq<A>, c: A, from: int, to: int)
    requires
        from <= to,
        forall|j: int| from <= j < to ==> s[j] != c,
    ensures
        position_in(s, c, from, to) == to,
    decreases to - from,
{
    if from < to {
        lemma_position_absent(s, c, from + 1, to);
    }
}

/// Finds the first `c` among `s[from..to]`.
pub fn find_char(s: &[char], c: char, from: usize, to: usize) -> (at: usize)
    requires
        from <= to <= s@.len(),
    ensures
        at == position_in(s@, c, from as int, to as int),
        from <= at <= to,
{
    let mut at: usize = from;
    while at < to && s[at] != c
        invariant
            from <= at <= to <= s@.len(),
            position_in(s@, c, from as int, to as int) == position_in(s@, c, at as int, to as int),
        decreases to - at,
    {
        at = at + 1;
    }
    at
}

/// Whether `c` is one of the ten digits `0` to `9`.
pub open spec fn is_digit(c: char) -> bool {
    '0' <= c <= '9'
}

/// The number that the digit `c` stands for.
pub open spec fn digit_value(c: char) -> nat
    recommends
        is_digit(c),
{
    (c as u32 - '0' as u32) as nat
}

/// The digit that stands for `d`.
pub open spec fn digit_char(d: nat) -> char
    recommends
        d < 10,
{
    if d == 0 {
        '0'
    } else if d == 1 {
        '1'
    } else if d == 2 {
        '2'
    } else if d == 3 {
        '3'
    } else if d == 4 {
        '4'
    } else if d == 5 {
        '5'
    } else if d == 6 {
        '6'
    } else if d == 7 {
        '7'
    } else if d == 8 {
        '8'
    } else {
        '9'
    }
}

/// Whether `s` is a decimal numeral: one digit or more, and nothing else.
pub open spec fn is_decimal(s: Seq<char>) -> bool {
    s.len() > 0 && forall|i: int| 0 <= i < s.len() ==> is_digit(#[trigger] s[i])
}

/// The number that the digits of `s` denote, most significant digit first.
pub open spec fn decimal_value(s: Seq<char>) -> nat
    decreases s.len(),
{
    if s.len() == 0 {
        0
    } else {
        decimal_value(s.drop_last()) * 10 + digit_value(s.last())
    }
}

/// What `s` denotes as a `u32`: its value where it is a decimal numeral of a
/// number that a `u32` can hold, and nothing otherwise. Leading zeros count
/// for nothing; a sign, a blank or any other character makes it no numeral.
pub open spec fn decimal_u32(s: Seq<char>) -> Option<u32> {
    if is_decimal(s) && decimal_value(s) <= u32::MAX {
        Some(decimal_value(s) as u32)
    } else {
        None
    }
}

/// A numeral denotes no less than any of its prefixes.
pub proof fn lemma_decimal_value_prefix(s: Seq<char>, k: int)
    requires
        0 <= k <= s.len(),
    ensures
        decimal_value(s.take(k)) <= decimal_value(s),
    decreases s.len() - k,
{
    if k == s.len() {
        assert(s.take(k) == s);
    } else {
        lemma_decimal_value_prefix(s, k + 1);
        assert(s.take(k + 1).drop_last() == s.take(k));
    }
}

/// Reads `s` as a decimal numeral.
pub fn parse_decimal(s: &[char]) -> (value: Option<u32>)
    ensures
        value == decimal_u32(s@),
{
    if s.len() == 0 {
        return None;
    }
    let mut acc: u32 = 0;
    let mut i: usize = 0;
    while i < s.len()
        invariant
            0 <= i <= s@.len(),
            acc == decimal_value(s@.take(i as int)),
            forall|j: int| 0 <= j < i ==> is_digit(#[trigger] s@[j]),
        decreases s@.len() - i,
    {
        let c = s[i];
        if c < '0' || c > '9' {
            return None;
        }
        let d: u32 = c as u32 - '0' as u32;
        proof {
            assert(s@.take(i + 1).drop_last() == s@.take(i as int));
            lemma_decimal_value_prefix(s@, i + 1);
        }
        if acc > (u32::MAX - d) / 10 {
            return None;
        }
        acc = acc * 10 + d;
        i = i + 1;
    }
    assert(s@.take(i as int) == s@);
    Some(acc)
}

/// The digits of `n`, most significant first, with no leading zero but for
/// `0` itself.
pub open spec fn digits_of(n: nat) -> Seq<char>
    decreases n,
{
    if n < 10 {
        seq![digit_char(n)]
    } else {
        digits_of(n / 10).push(digit_char(n % 10))
    }
}

/// `n` in decimal, with zeros put before it until it has `width` characters;
/// a number that is wider already stays as it is.
pub open spec fn padded_decimal(n: nat, width: nat) -> Seq<char> {
    Seq::new(padding(n, width), |i: int| '0') + digits_of(n)
}

/// How many zeros stand before the digits of `n` padded to `width`.
pub open spec fn padding(n: nat, width: nat) -> nat {
    if width > digits_of(n).len() {
        (width - digits_of(n).len()) as nat
    } else {
        0
    }
}

/// The digits of a number are a numeral, and the numeral denotes the number.
pub proof fn lemma_digits_of(n: nat)
    ensures
        is_decimal(digits_of(n)),
        decimal_value(digits_of(n)) == n,
    decreases n,
{
    if n < 10 {
        assert(digits_of(n).drop_last() == Seq::<char>::empty());
        assert(decimal_value(Seq::<char>::empty()) == 0);
    } else {
        lemma_digits_of(n / 10);
        assert(digits_of(n).drop_last() == digits_of(n / 10));
    }
}

/// Zeros in front do not change what a numeral denotes.
pub proof fn lemma_leading_zeros(k: nat, s: Seq<char>)
    ensures
        decimal_value(Seq::new(k, |i: int| '0') + s) == decimal_value(s),
    decreases s.len(),
{
    let zeros = Seq::new(k, |i: int| '0');
    if s.len() == 0 {
        lemma_zeros_value(k);
    } else {
        lemma_leading_zeros(k, s.drop_last());
        assert((zeros + s).drop_last() == zeros + s.drop_last());
    }
}

/// A run of zeros denotes zero.
pub proof fn lemma_zeros_value(k: nat)
    ensures
        decimal_value(Seq::new(k, |i: int| '0')) == 0,
    decreases k,
{
    if k > 0 {
        lemma_zeros_value((k - 1) as nat);
        assert(Seq::new(k, |i: int| '0').drop_last() == Seq::new((k - 1) as nat, |i: int| '0'));
    }
}

/// The digit that stands for what a digit stands for is that digit.
proof fn lemma_digit_char_value(c: char)
    requires
        is_digit(c),
    ensures
        digit_value(c) < 10,
        digit_char(digit_value(c)) == c,
{
}

/// A numeral is the number that it denotes, padded to its own length: there
/// is one way to write a number in a given width, and no numeral is shorter
/// than the digits of its number.
pub proof fn lemma_numeral_is_padded(s: Seq<char>)
    requires
        is_decimal(s),
    ensures
        digits_of(decimal_value(s)).len() <= s.len(),
        s == padded_decimal(decimal_value(s), s.len()),
    decreases s.len(),
{
    let front = s.drop_last();
    let value = decimal_value(s);
    lemma_digit_char_value(s.last());
    if s.len() == 1 {
        assert(decimal_value(front) == 0);
        assert(s =~= padded_decimal(value, s.len()));
    } else {
        let before = decimal_value(front);
        assert forall|i: int| 0 <= i < front.len() implies is_digit(#[trigger] front[i]) by {
            assert(front[i] == s[i]);
        }
        lemma_numeral_is_padded(front);
        assert(value == before * 10 + digit_value(s.last()));
        if before == 0 {
            assert(digits_of(value) =~= seq![s.last()]);
        } else {
            assert(value / 10 == before && value % 10 == digit_value(s.last()));
            assert(digits_of(value) =~= digits_of(before).push(s.last()));
        }
        assert(s =~= front.push(s.last()));
        assert(s =~= padded_decimal(value, s.len()));
    }
}

/// Padding a number and reading the result back gives the number: a padded
/// numeral is a numeral, and it denotes the number that was padded.
pub proof fn lemma_padded_decimal(n: nat, width: nat)
    ensures
        is_decimal(padded_decimal(n, width)),
        decimal_value(padded_decimal(n, width)) == n,
        padded_decimal(n, width).len() == if width > digits_of(n).len() {
            width
        } else {
            digits_of(n).len()
        },
{
    lemma_digits_of(n);
    lemma_leading_zeros(padding(n, width), digits_of(n));
}

/// The one-character text of the digit `d`.
fn digit_text(d: u32) -> (text: &'static str)
    requires
        d < 10,
    ensures
        text@ == seq![digit_char(d as nat)],
{
    proof {
        reveal_strlit("0");
        reveal_strlit("1");
        reveal_strlit("2");
        reveal_strlit("3");
        reveal_strlit("4");
        reveal_strlit("5");
        reveal_strlit("6");
        reveal_strlit("7");
        reveal_strlit("8");
        reveal_strlit("9");
    }
    let text = if d == 0 {
        "0"
    } else if d == 1 {
        "1"
    } else if d == 2 {
        "2"
    } else if d == 3 {
        "3"
    } else if d == 4 {
        "4"
    } else if d == 5 {
        "5"
    } else if d == 6 {
        "6"
    } else if d == 7 {
        "7"
    } else if d == 8 {
        "8"
    } else {
        "9"
    };
    text
}

/// Writes the digits of `n` at the end of `text`.
pub fn push_decimal(text: &mut String, n: u32)
    ensures
        final(text)@ == old(text)@ + digits_of(n as nat),
    decreases n,
{
    if n >= 10 {
        push_decimal(text, n / 10);
    }
    text.append(digit_text(n % 10));
}

/// A number that a `u32` can hold has ten digits at most.
pub proof fn lemma_digits_of_u32(n: nat)
    requires
        n <= u32::MAX,
    ensures
        1 <= digits_of(n).len() <= 10,
{
    reveal_with_fuel(digits_of, 11);
}

/// How many digits `n` has.
pub fn decimal_width(n: u32) -> (width: usize)
    ensures
        width == digits_of(n as nat).len(),
        1 <= width <= 10,
{
    let mut width: usize = 1;
    let mut rest: u32 = n;
    proof {
        lemma_digits_of_u32(n as nat);
    }
    while rest >= 10
        invariant
            1 <= width,
            width + digits_of(rest as nat).len() == digits_of(n as nat).len() + 1,
            digits_of(rest as nat).len() >= 1,
            digits_of(n as nat).len() <= 10,
        decreases rest,
    {
        proof {
            lemma_digits_of_u32((rest / 10) as nat);
        }
        rest = rest / 10;
        width = width + 1;
    }
    width
}

/// Writes `n` in decimal, padded with zeros in front to `width` characters.
pub fn pad_decimal(n: u32, width: usize) -> (text: String)
    ensures
        text@ == padded_decimal(n as nat, width as nat),
{
    let mut text = String::new();
    let digits: usize = decimal_width(n);
    let mut zeros: usize = 0;
    while zeros + digits < width
        invariant
            digits == digits_of(n as nat).len(),
            digits <= 10,
            zeros == 0 || zeros + digits <= width,
            text@ == Seq::new(zeros as nat, |i: int| '0'),
        decreases width - zeros,
    {
        proof {
            reveal_strlit("0");
        }
        text.append("0");
        zeros = zeros + 1;
    }
    push_decimal(&mut text, n);
    text
}

} // verus!
