//! Characters and decimal numerals: the small vocabulary that the dictionary
//! text of a header is written in.

use crate::reader::error::IntErrorKind;
use vstd::prelude::*;

verus! {

/// The view of a `Result`: the view of whichever side it holds.
pub open spec fn view_result<T: View, E: View>(r: Result<T, E>) -> Result<T::V, E::V> {
    match r {
        Ok(value) => Ok(value@),
        Err(error) => Err(error@),
    }
}

/// The characters of `s`, one by one.
pub fn chars_of(s: &str) -> (chars: Vec<char>)
    ensures
        chars@ == s@,
{
    let mut chars: Vec<char> = Vec::new();
    for c in it: s.chars()
        invariant
            it.seq() == s@,
            chars@ == it.seq().take(it.index()),
    {
        chars.push(c);
    }
    chars
}

/// Whether two texts hold the same characters.
pub fn text_eq(a: &str, b: &str) -> (same: bool)
    ensures
        same == (a@ == b@),
{
    let left = chars_of(a);
    let right = chars_of(b);
    if left.len() != right.len() {
        return false;
    }
    let mut i: usize = 0;
    while i < left.len()
        invariant
            left@ == a@,
            right@ == b@,
            left.len() == right.len(),
            i <= left.len(),
            forall|j: int| 0 <= j < i ==> left[j] == right[j],
        decreases left.len() - i,
    {
        if left[i] != right[i] {
            return false;
        }
        i += 1;
    }
    assert(a@ =~= b@);
    true
}

/// The characters with the Unicode property `White_Space`.
pub open spec fn is_whitespace(c: char) -> bool {
    let code = c as u32;
    ||| 0x09 <= code <= 0x0d
    ||| code == 0x20
    ||| code == 0x85
    ||| code == 0xa0
    ||| code == 0x1680
    ||| 0x2000 <= code <= 0x200a
    ||| code == 0x2028
    ||| code == 0x2029
    ||| code == 0x202f
    ||| code == 0x205f
    ||| code == 0x3000
}

/// Whether `c` is white space.
pub fn char_is_whitespace(c: char) -> (white: bool)
    ensures
        white == is_whitespace(c),
{
    let code: u32 = c as u32;
    (0x09 <= code && code <= 0x0d) || code == 0x20 || code == 0x85 || code == 0xa0 || code
        == 0x1680 || (0x2000 <= code && code <= 0x200a) || code == 0x2028 || code == 0x2029
        || code == 0x202f || code == 0x205f || code == 0x3000
}

/// `text` without its white space.
pub open spec fn strip_whitespace(text: Seq<char>) -> Seq<char> {
    text.filter(|c: char| !is_whitespace(c))
}

/// Takes the white space out of `text`.
pub fn without_whitespace(text: &Vec<char>) -> (kept: Vec<char>)
    ensures
        kept@ == strip_whitespace(text@),
{
    let mut kept: Vec<char> = Vec::new();
    let mut i: usize = 0;
    while i < text.len()
        invariant
            i <= text.len(),
            kept@ == strip_whitespace(text@.take(i as int)),
        decreases text.len() - i,
    {
        proof {
            assert(text@.take(i + 1) =~= text@.take(i as int).push(text[i as int]));
            Seq::lemma_filter_push(
                text@.take(i as int),
                text[i as int],
                |c: char| !is_whitespace(c),
            );
        }
        if !char_is_whitespace(text[i]) {
            kept.push(text[i]);
        }
        i += 1;
    }
    assert(text@.take(text.len() as int) =~= text@);
    kept
}

/// An ASCII decimal digit.
pub open spec fn is_digit(c: char) -> bool {
    '0' <= c <= '9'
}

/// What the digit `c` counts for.
pub open spec fn digit_value(c: char) -> nat
    recommends
        is_digit(c),
{
    (c as u32 - 0x30) as nat
}

/// The digit that counts for `d`.
pub open spec fn digit_char(d: nat) -> char
    recommends
        d < 10,
{
    (0x30 + d) as char
}

/// The value of a run of digits, most significant first.
pub open spec fn numeral_value(digits: Seq<char>) -> nat
    decreases digits.len(),
{
    if digits.len() == 0 {
        0
    } else {
        numeral_value(digits.drop_last()) * 10 + digit_value(digits.last())
    }
}

/// The decimal numeral of `n`, without sign or leading zeros.
pub open spec fn decimal(n: nat) -> Seq<char>
    decreases n,
{
    if n < 10 {
        seq![digit_char(n)]
    } else {
        decimal(n / 10).push(digit_char(n % 10))
    }
}

/// The digits are exactly the characters that `digit_char` gives.
pub proof fn lemma_digit_char(d: nat)
    requires
        d < 10,
    ensures
        is_digit(digit_char(d)),
        digit_value(digit_char(d)) == d,
        !is_whitespace(digit_char(d)),
        digit_char(d) != ',',
        digit_char(d) != '+',
        digit_char(d) != '-',
{
}

/// A decimal numeral is one or more digits, and counts for the number it was written from.
pub proof fn lemma_decimal(n: nat)
    ensures
        decimal(n).len() >= 1,
        forall|i: int| 0 <= i < decimal(n).len() ==> is_digit(#[trigger] decimal(n)[i]),
        numeral_value(decimal(n)) == n,
    decreases n,
{
    if n < 10 {
        lemma_digit_char(n);
        assert(decimal(n).drop_last() =~= Seq::<char>::empty());
        assert(numeral_value(decimal(n).drop_last()) == 0);
    } else {
        lemma_decimal(n / 10);
        lemma_digit_char(n % 10);
        assert(decimal(n).drop_last() =~= decimal(n / 10));
    }
}

/// The text of one digit.
pub fn digit_str(d: usize) -> (text: &'static str)
    requires
        d < 10,
    ensures
        text@ == seq![digit_char(d as nat)],
{
    proof {
        reveal_strlit("0");
        reveal_strlit("1");
        reveal_strlit("2");
        reveal_strlit("3");
        reveal_strlit("4");
        reveal_strlit("5");
        reveal_strlit("6");
        reveal_strlit("7");
        reveal_strlit("8");
        reveal_strlit("9");
    }
    let text = if d == 0 {
        "0"
    } else if d == 1 {
        "1"
    } else if d == 2 {
        "2"
    } else if d == 3 {
        "3"
    } else if d == 4 {
        "4"
    } else if d == 5 {
        "5"
    } else if d == 6 {
        "6"
    } else if d == 7 {
        "7"
    } else if d == 8 {
        "8"
    } else {
        "9"
    };
    assert(text@ =~= seq![digit_char(d as nat)]);
    text
}

/// Writes the decimal numeral of `n` behind what `out` holds.
pub fn push_decimal(out: &mut String, n: usize)
    ensures
        final(out)@ == old(out)@ + decimal(n as nat),
    decreases n,
{
    if n >= 10 {
        push_decimal(out, n / 10);
    }
    out.append(digit_str(n % 10));
    proof {
        if n >= 10 {
            assert(old(out)@ + decimal((n / 10) as nat) + seq![digit_char((n % 10) as nat)]
                =~= old(out)@ + decimal(n as nat));
        }
    }
}

/// How many digits `text` begins with.
pub open spec fn leading_digits(text: Seq<char>) -> nat
    decreases text.len(),
{
    if text.len() > 0 && is_digit(text[0]) {
        1 + leading_digits(text.drop_first())
    } else {
        0
    }
}

/// What an unsigned run of characters counts for: its leading digits decide.
/// Where they count for too much, that is the fault; else any character
/// behind them is; else the value is theirs.
pub open spec fn parse_digits(text: Seq<char>) -> Result<usize, IntErrorKind> {
    let run = leading_digits(text) as int;
    if numeral_value(text.take(run)) > usize::MAX {
        Err(IntErrorKind::PosOverflow)
    } else if run < text.len() {
        Err(IntErrorKind::InvalidDigit)
    } else {
        Ok(numeral_value(text) as usize)
    }
}

/// What `text` counts for as a dimension: digits, with at most a `+` before them.
pub open spec fn parse_numeral(text: Seq<char>) -> Result<usize, IntErrorKind> {
    if text.len() == 0 {
        Err(IntErrorKind::Empty)
    } else if text.len() == 1 && (text[0] == '+' || text[0] == '-') {
        Err(IntErrorKind::InvalidDigit)
    } else if text[0] == '+' {
        parse_digits(text.drop_first())
    } else {
        parse_digits(text)
    }
}

/// Where `text` begins with `k` digits, its run of leading digits is at least that long.
pub proof fn lemma_leading_digits_at_least(text: Seq<char>, k: int)
    requires
        0 <= k <= text.len(),
        forall|i: int| 0 <= i < k ==> is_digit(#[trigger] text[i]),
    ensures
        leading_digits(text) >= k,
    decreases k,
{
    if k > 0 {
        assert(is_digit(text[0]));
        assert forall|i: int| 0 <= i < k - 1 implies is_digit(#[trigger] text.drop_first()[i]) by {
            assert(text.drop_first()[i] == text[i + 1]);
        }
        lemma_leading_digits_at_least(text.drop_first(), k - 1);
    }
}

/// The run of leading digits holds digits only, and ends at the end of the
/// text or before a character that is none.
pub proof fn lemma_leading_digits(text: Seq<char>)
    ensures
        leading_digits(text) <= text.len(),
        forall|i: int| 0 <= i < leading_digits(text) ==> is_digit(#[trigger] text[i]),
        leading_digits(text) < text.len() ==> !is_digit(text[leading_digits(text) as int]),
    decreases text.len(),
{
    if text.len() > 0 && is_digit(text[0]) {
        let rest = text.drop_first();
        lemma_leading_digits(rest);
        assert forall|i: int| 0 <= i < leading_digits(text) implies is_digit(
            #[trigger] text[i],
        ) by {
            if i > 0 {
                assert(text[i] == rest[i - 1]);
            }
        }
        if leading_digits(text) < text.len() {
            assert(text[leading_digits(text) as int] == rest[leading_digits(rest) as int]);
        }
    }
}

/// A longer beginning of a text counts for no less than a shorter one.
pub proof fn lemma_numeral_value_grows(text: Seq<char>, i: int, j: int)
    requires
        0 <= i <= j <= text.len(),
    ensures
        numeral_value(text.take(i)) <= numeral_value(text.take(j)),
    decreases j - i,
{
    if i < j {
        lemma_numeral_value_grows(text, i, j - 1);
        assert(text.take(j).drop_last() =~= text.take(j - 1));
        assert(numeral_value(text.take(j - 1)) * 10 >= numeral_value(text.take(j - 1)))
            by (nonlinear_arith);
    }
}

/// Reads the dimension that `text[from..to]` is the numeral of.
pub fn read_numeral(text: &Vec<char>, from: usize, to: usize) -> (value: Result<
    usize,
    IntErrorKind,
>)
    requires
        from <= to <= text.len(),
    ensures
        value == parse_numeral(text@.subrange(from as int, to as int)),
{
    let ghost whole = text@.subrange(from as int, to as int);
    if from == to {
        return Err(IntErrorKind::Empty);
    }
    let first = text[from];
    assert(first == whole[0]);
    if to - from == 1 && (first == '+' || first == '-') {
        return Err(IntErrorKind::InvalidDigit);
    }
    let start: usize = if first == '+' {
        from + 1
    } else {
        from
    };
    let ghost digits = text@.subrange(start as int, to as int);
    assert(digits =~= if first == '+' {
        whole.drop_first()
    } else {
        whole
    });
    assert(parse_numeral(whole) == parse_digits(digits));
    let mut value: usize = 0;
    let mut i: usize = start;
    while i < to
        invariant
            from <= start <= i <= to <= text.len(),
            digits == text@.subrange(start as int, to as int),
            parse_numeral(text@.subrange(from as int, to as int)) == parse_digits(digits),
            forall|j: int| 0 <= j < i - start ==> is_digit(#[trigger] digits[j]),
            value == numeral_value(digits.take(i - start)),
        decreases to - i,
    {
        let c = text[i];
        assert(c == digits[i - start]);
        let ghost k = i - start;
        assert(digits.take(k + 1).drop_last() =~= digits.take(k));
        if !(c >= '0' && c <= '9') {
            proof {
                lemma_leading_digits(digits);
                lemma_leading_digits_at_least(digits, k);
                assert(leading_digits(digits) == k);
            }
            return Err(IntErrorKind::InvalidDigit);
        }
        let d: usize = (c as u32 - 0x30) as usize;
        assert(d == digit_value(c));
        if value > (usize::MAX - d) / 10 {
            proof {
                assert(value * 10 + d > usize::MAX);
                lemma_leading_digits(digits);
                lemma_leading_digits_at_least(digits, k + 1);
                lemma_numeral_value_grows(digits, k + 1, leading_digits(digits) as int);
            }
            return Err(IntErrorKind::PosOverflow);
        }
        value = value * 10 + d;
        i += 1;
    }
    proof {
        assert(digits.take(to - start) =~= digits);
        lemma_leading_digits(digits);
        lemma_leading_digits_at_least(digits, to - start);
        assert(digits.take(leading_digits(digits) as int) =~= digits);
    }
    Ok(value)
}

/// The numeral written from a dimension is read back as that dimension.
pub proof fn lemma_parse_decimal(n: usize)
    ensures
        parse_numeral(decimal(n as nat)) == Ok::<usize, IntErrorKind>(n),
{
    let text = decimal(n as nat);
    lemma_decimal(n as nat);
    assert(is_digit(text[0]));
    lemma_leading_digits(text);
    lemma_leading_digits_at_least(text, text.len() as int);
    assert(text.take(text.len() as int) =~= text);
}

/// The numerals of `items`, with `separator` between each two.
pub open spec fn join_decimals(items: Seq<usize>, separator: Seq<char>) -> Seq<char>
    decreases items.len(),
{
    if items.len() == 0 {
        Seq::empty()
    } else if items.len() == 1 {
        decimal(items[0] as nat)
    } else {
        decimal(items[0] as nat) + separator + join_decimals(items.drop_first(), separator)
    }
}

/// Joining one more item puts the separator and its numeral at the end.
pub proof fn lemma_join_decimals_push(items: Seq<usize>, last: usize, separator: Seq<char>)
    requires
        items.len() > 0,
    ensures
        join_decimals(items.push(last), separator) == join_decimals(items, separator) + separator
            + decimal(last as nat),
    decreases items.len(),
{
    let longer = items.push(last);
    assert(longer.drop_first() =~= items.drop_first().push(last));
    if items.len() == 1 {
        assert(longer.drop_first() =~= seq![last]);
        assert(join_decimals(longer.drop_first(), separator) == decimal(last as nat));
    } else {
        lemma_join_decimals_push(items.drop_first(), last, separator);
        assert(decimal(items[0] as nat) + separator + (join_decimals(
            items.drop_first(),
            separator,
        ) + separator + decimal(last as nat)) =~= decimal(items[0] as nat) + separator
            + join_decimals(items.drop_first(), separator) + separator + decimal(last as nat));
    }
}

/// Writes the numerals of `items`, with `separator` between each two, behind what `out` holds.
pub fn push_joined(out: &mut String, items: &[usize], separator: &str)
    ensures
        final(out)@ == old(out)@ + join_decimals(items@, separator@),
{
    let mut i: usize = 0;
    while i < items.len()
        invariant
            i <= items.len(),
            out@ == old(out)@ + join_decimals(items@.take(i as int), separator@),
        decreases items.len() - i,
    {
        let ghost before = items@.take(i as int);
        assert(items@.take(i + 1) =~= before.push(items[i as int]));
        if i > 0 {
            out.append(separator);
            proof {
                lemma_join_decimals_push(before, items[i as int], separator@);
            }
        } else {
            assert(before.push(items[i as int]).len() == 1);
        }
        push_decimal(out, items[i]);
        assert(out@ =~= old(out)@ + join_decimals(items@.take(i + 1), separator@));
        i += 1;
    }
    assert(items@.take(items.len() as int) =~= items@);
}

/// A list of numbers as it is shown to a reader: in square brackets, with
/// a comma and a space between each two.
pub open spec fn list_text(items: Seq<usize>) -> Seq<char> {
    "["@ + join_decimals(items, ", "@) + "]"@
}

/// Writes `items` as a list behind what `out` holds.
pub fn push_list(out: &mut String, items: &[usize])
    ensures
        final(out)@ == old(out)@ + list_text(items@),
{
    out.append("[");
    push_joined(out, items, ", ");
    out.append("]");
    assert(out@ =~= old(out)@ + list_text(items@));
}

/// Bytes as numbers.
pub open spec fn widen(bytes: Seq<u8>) -> Seq<usize> {
    bytes.map_values(|byte: u8| byte as usize)
}

/// Widens bytes to numbers.
pub fn widened(bytes: &[u8]) -> (numbers: Vec<usize>)
    ensures
        numbers@ == widen(bytes@),
{
    let mut numbers: Vec<usize> = Vec::new();
    let mut i: usize = 0;
    while i < bytes.len()
        invariant
            i <= bytes.len(),
            numbers@ == widen(bytes@.take(i as int)),
        decreases bytes.len() - i,
    {
        numbers.push(bytes[i] as usize);
        assert(numbers@ =~= widen(bytes@.take(i + 1)));
        i += 1;
    }
    assert(bytes@.take(bytes.len() as int) =~= bytes@);
    numbers
}

} // verus!
