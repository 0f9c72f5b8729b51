//! Numbers and lists in text form.

use vstd::prelude::*;

verus! {

/// `String::push` appends one character.
pub assume_specification[ String::push ](s: &mut String, c: char)
    ensures
        final(s)@ == old(s)@.push(c),
;

/// The digit `d` of radix 16 or less, in upper case.
pub open spec fn digit_char(d: nat) -> char {
    if d < 10 {
        (48 + d) as char
    } else {
        (55 + d) as char
    }
}

/// A number in the given radix, without leading zeros.
pub open spec fn numeral(n: nat, radix: nat) -> Seq<char>
    decreases n,
{
    if n < radix || radix < 2 {
        seq![digit_char(n)]
    } else {
        proof {
            assert(n / radix < n) by (nonlinear_arith)
                requires
                    2 <= radix,
                    radix <= n,
            ;
        }
        numeral(n / radix, radix).push(digit_char(n % radix))
    }
}

/// Text filled up with zeros on the left to at least `width` characters.
pub open spec fn zero_padded(s: Seq<char>, width: nat) -> Seq<char> {
    if s.len() < width {
        Seq::new((width - s.len()) as nat, |i: int| '0') + s
    } else {
        s
    }
}

/// A number in decimal.
pub open spec fn decimal(n: nat) -> Seq<char> {
    numeral(n, 10)
}

/// A number in upper-case hexadecimal, at least `width` digits long.
pub open spec fn hex(n: nat, width: nat) -> Seq<char> {
    zero_padded(numeral(n, 16), width)
}

fn digit(d: u64) -> (r: char)
    requires
        d < 16,
    ensures
        r == digit_char(d as nat),
{
    if d < 10 {
        (48u8 + d as u8) as char
    } else {
        (55u8 + d as u8) as char
    }
}

/// Appends a number in the given radix, zero-padded to `width` digits.
fn push_numeral(out: &mut String, n: u64, radix: u64, width: usize)
    requires
        2 <= radix <= 16,
    ensures
        final(out)@ == old(out)@ + zero_padded(numeral(n as nat, radix as nat), width as nat),
{
    let mut digits: Vec<char> = Vec::new();
    let mut rest: u64 = n;
    while rest >= radix
        invariant
            2 <= radix <= 16,
            numeral(n as nat, radix as nat) == numeral(rest as nat, radix as nat) + digits@.reverse(),
        decreases rest,
    {
        let ghost before = digits@;
        digits.push(digit(rest % radix));
        proof {
            let d = digit_char((rest % radix) as nat);
            assert(before.push(d).reverse() =~= seq![d] + before.reverse());
            assert(numeral((rest / radix) as nat, radix as nat).push(d) + before.reverse()
                =~= numeral((rest / radix) as nat, radix as nat) + before.push(d).reverse());
            assert(rest / radix < rest) by (nonlinear_arith)
                requires
                    2 <= radix,
                    rest >= radix,
            ;
        }
        rest = rest / radix;
    }
    let ghost before = digits@;
    digits.push(digit(rest));
    proof {
        assert(before.push(digit_char(rest as nat)).reverse() =~= seq![digit_char(rest as nat)]
            + before.reverse());
    }
    let ghost all = digits@.reverse();
    let mut pad: usize = digits.len();
    let ghost fill = Seq::new((pad - digits@.len()) as nat, |i: int| '0');
    assert(out@ =~= old(out)@ + fill);
    while pad < width
        invariant
            digits@.len() <= pad,
            pad <= width || pad == digits@.len(),
            out@ == old(out)@ + Seq::new((pad - digits@.len()) as nat, |i: int| '0'),
        decreases width - pad,
    {
        out.push('0');
        assert(out@ =~= old(out)@ + Seq::new((pad + 1 - digits@.len()) as nat, |i: int| '0'));
        pad += 1;
    }
    let ghost padded = out@;
    let mut i: usize = digits.len();
    while i > 0
        invariant
            i <= digits@.len(),
            all == digits@.reverse(),
            out@ == padded + all.take(digits@.len() - i),
        decreases i,
    {
        i -= 1;
        out.push(digits[i]);
        assert(all.take(digits@.len() - i) =~= all.take(digits@.len() - i - 1).push(
            digits@[i as int],
        ));
    }
    assert(all.take(digits@.len() as int) =~= all);
    assert(out@ =~= old(out)@ + zero_padded(numeral(n as nat, radix as nat), width as nat));
}

/// Appends a number in decimal.
pub fn push_decimal(out: &mut String, n: u64)
    ensures
        final(out)@ == old(out)@ + decimal(n as nat),
{
    push_numeral(out, n, 10, 0);
}

/// Appends a number in decimal, zero-padded to at least three digits.
pub fn push_millis(out: &mut String, n: u64)
    ensures
        final(out)@ == old(out)@ + zero_padded(decimal(n as nat), 3),
{
    push_numeral(out, n, 10, 3);
}

/// Appends a number in upper-case hexadecimal of at least `width` digits.
pub fn push_hex(out: &mut String, n: u64, width: usize)
    ensures
        final(out)@ == old(out)@ + hex(n as nat, width as nat),
{
    push_numeral(out, n, 16, width);
}

/// The pieces of a text between occurrences of a separator: one more than
/// there are separators.
pub open spec fn split_on(s: Seq<char>, sep: char) -> Seq<Seq<char>>
    decreases s.len(),
{
    if s.len() == 0 {
        seq![Seq::empty()]
    } else {
        let pieces = split_on(s.drop_last(), sep);
        if s.last() == sep {
            pieces.push(Seq::empty())
        } else {
            pieces.drop_last().push(pieces.last().push(s.last()))
        }
    }
}

/// The characters with the Unicode property White_Space.
pub open spec fn is_white(c: char) -> bool {
    ||| '\u{9}' <= c <= '\u{d}'
    ||| c == ' '
    ||| c == '\u{85}'
    ||| c == '\u{a0}'
    ||| c == '\u{1680}'
    ||| '\u{2000}' <= c <= '\u{200a}'
    ||| c == '\u{2028}'
    ||| c == '\u{2029}'
    ||| c == '\u{202f}'
    ||| c == '\u{205f}'
    ||| c == '\u{3000}'
}

/// A text without leading white space.
pub open spec fn trim_start(s: Seq<char>) -> Seq<char>
    decreases s.len(),
{
    if s.len() > 0 && is_white(s[0]) {
        trim_start(s.drop_first())
    } else {
        s
    }
}

/// A text without trailing white space.
pub open spec fn trim_end(s: Seq<char>) -> Seq<char>
    decreases s.len(),
{
    if s.len() > 0 && is_white(s.last()) {
        trim_end(s.drop_last())
    } else {
        s
    }
}

/// A text without white space at either end.
pub open spec fn trimmed(s: Seq<char>) -> Seq<char> {
    trim_end(trim_start(s))
}

/// A text without a leading zero followed by `x`, taken off as often as the
/// pair occurs.
pub open spec fn strip_zero_and(s: Seq<char>, x: char) -> Seq<char>
    decreases s.len(),
{
    if s.len() >= 2 && s[0] == '0' && s[1] == x {
        strip_zero_and(s.skip(2), x)
    } else {
        s
    }
}

/// The value of a digit, if it is one in the given radix.
pub open spec fn digit_value(c: char, radix: nat) -> Option<nat> {
    let v: int = if '0' <= c <= '9' {
        c as int - '0' as int
    } else if 'a' <= c <= 'z' {
        c as int - 'a' as int + 10
    } else if 'A' <= c <= 'Z' {
        c as int - 'A' as int + 10
    } else {
        radix as int
    };
    if v < radix {
        Some(v as nat)
    } else {
        None
    }
}

/// The value of a string of digits, the empty one included; `None` when it
/// holds anything else.
pub open spec fn digits_value(s: Seq<char>, radix: nat) -> Option<nat>
    decreases s.len(),
{
    if s.len() == 0 {
        Some(0)
    } else {
        match (digits_value(s.drop_last(), radix), digit_value(s.last(), radix)) {
            (Some(high), Some(low)) => Some(high * radix + low),
            _ => None,
        }
    }
}

/// The number that a text stands for: digits, at least one, after at most one
/// plus sign, of a value that fits 32 bits.
pub open spec fn parse_u32(s: Seq<char>, radix: nat) -> Option<u32> {
    let digits = if s.len() > 1 && s[0] == '+' {
        s.drop_first()
    } else {
        s
    };
    if digits.len() == 0 {
        None
    } else {
        match digits_value(digits, radix) {
            Some(v) if v <= u32::MAX => Some(v as u32),
            _ => None,
        }
    }
}

fn white(c: char) -> (r: bool)
    ensures
        r == is_white(c),
{
    ('\u{9}' <= c && c <= '\u{d}') || c == ' ' || c == '\u{85}' || c == '\u{a0}' || c == '\u{1680}'
        || ('\u{2000}' <= c && c <= '\u{200a}') || c == '\u{2028}' || c == '\u{2029}' || c
        == '\u{202f}' || c == '\u{205f}' || c == '\u{3000}'
}

fn value_of_digit(c: char, radix: u32) -> (r: Option<u32>)
    requires
        2 <= radix <= 16,
    ensures
        r is Some <==> digit_value(c, radix as nat) is Some,
        r matches Some(v) ==> digit_value(c, radix as nat) == Some(v as nat) && v < radix,
{
    let v: u32 = if '0' <= c && c <= '9' {
        c as u32 - 48
    } else if 'a' <= c && c <= 'z' {
        c as u32 - 97 + 10
    } else if 'A' <= c && c <= 'Z' {
        c as u32 - 65 + 10
    } else {
        radix
    };
    if v < radix {
        Some(v)
    } else {
        None
    }
}

/// The characters of a text.
pub fn chars_of(text: &str) -> (r: Vec<char>)
    ensures
        r@ == text@,
{
    let mut r: Vec<char> = Vec::new();
    for c in it: text.chars()
        invariant
            it.seq() == text@,
            r@ == text@.take(it.index()),
    {
        r.push(c);
        assert(text@.take(it.index() + 1) =~= text@.take(it.index()).push(c));
    }
    assert(text@.take(text@.len() as int) =~= text@);
    r
}

/// The text made of the given characters.
pub fn string_of(chars: &Vec<char>) -> (r: String)
    ensures
        r@ == chars@,
{
    let mut r: String = String::new();
    let mut i: usize = 0;
    while i < chars.len()
        invariant
            i <= chars@.len(),
            r@ == chars@.take(i as int),
        decreases chars@.len() - i,
    {
        r.push(chars[i]);
        assert(chars@.take(i + 1) =~= chars@.take(i as int).push(chars@[i as int]));
        i += 1;
    }
    assert(chars@.take(i as int) =~= chars@);
    r
}

/// Splits a text at each occurrence of a separator.
pub fn split_text(text: &str, sep: char) -> (r: Vec<Vec<char>>)
    ensures
        r.deep_view() == split_on(text@, sep),
{
    let chars = chars_of(text);
    let mut pieces: Vec<Vec<char>> = Vec::new();
    let mut piece: Vec<char> = Vec::new();
    let n: usize = chars.len();
    let mut i: usize = 0;
    assert(text@.take(0) =~= Seq::<char>::empty());
    assert(pieces.deep_view().push(piece@) =~= seq![Seq::<char>::empty()]);
    while i < n
        invariant
            i <= n,
            n == text@.len(),
            chars@ == text@,
            pieces.deep_view().push(piece@) == split_on(text@.take(i as int), sep),
        decreases n - i,
    {
        let c: char = chars[i];
        let ghost before = pieces.deep_view();
        let ghost open_piece = piece@;
        proof {
            assert(text@.take(i + 1).drop_last() =~= text@.take(i as int));
            assert(before.push(open_piece).drop_last() =~= before);
        }
        if c == sep {
            assert(piece.deep_view() =~= piece@);
            pieces.push(piece);
            assert(pieces.deep_view() =~= before.push(open_piece));
            piece = Vec::new();
        } else {
            piece.push(c);
        }
        assert(text@.take(i + 1).last() == c);
        i += 1;
    }
    assert(text@.take(n as int) =~= text@);
    assert(piece.deep_view() =~= piece@);
    let ghost before = pieces.deep_view();
    let ghost open_piece = piece@;
    pieces.push(piece);
    assert(pieces.deep_view() =~= before.push(open_piece));
    pieces
}

/// A text without white space at either end.
pub fn trim_text(s: &Vec<char>) -> (r: Vec<char>)
    ensures
        r@ == trimmed(s@),
{
    let mut lo: usize = 0;
    assert(s@.skip(0) =~= s@);
    while lo < s.len() && white(s[lo])
        invariant
            lo <= s@.len(),
            trim_start(s@) == trim_start(s@.skip(lo as int)),
        decreases s@.len() - lo,
    {
        assert(s@.skip(lo as int).drop_first() =~= s@.skip(lo + 1));
        lo += 1;
    }
    let ghost body = s@.skip(lo as int);
    assert(trim_start(s@) == body);
    let mut hi: usize = s.len();
    assert(body =~= s@.subrange(lo as int, hi as int));
    while hi > lo && white(s[hi - 1])
        invariant
            lo <= hi <= s@.len(),
            trim_end(body) == trim_end(s@.subrange(lo as int, hi as int)),
        decreases hi,
    {
        assert(s@.subrange(lo as int, hi as int).drop_last() =~= s@.subrange(lo as int, hi - 1));
        hi -= 1;
    }
    copy_range(s, lo, hi)
}

/// A text without any leading repetitions of a zero followed by `x`.
pub fn strip_prefix_text(s: &Vec<char>, x: char) -> (r: Vec<char>)
    ensures
        r@ == strip_zero_and(s@, x),
{
    let mut lo: usize = 0;
    assert(s@.skip(0) =~= s@);
    while s.len() - lo >= 2 && s[lo] == '0' && s[lo + 1] == x
        invariant
            lo <= s@.len(),
            strip_zero_and(s@, x) == strip_zero_and(s@.skip(lo as int), x),
        decreases s@.len() - lo,
    {
        assert(s@.skip(lo as int).skip(2) =~= s@.skip(lo + 2));
        lo += 2;
    }
    assert(s@.skip(lo as int) =~= s@.subrange(lo as int, s@.len() as int));
    copy_range(s, lo, s.len())
}

fn copy_range(s: &Vec<char>, lo: usize, hi: usize) -> (r: Vec<char>)
    requires
        lo <= hi <= s@.len(),
    ensures
        r@ == s@.subrange(lo as int, hi as int),
{
    let mut r: Vec<char> = Vec::new();
    let mut i: usize = lo;
    while i < hi
        invariant
            lo <= i <= hi <= s@.len(),
            r@ == s@.subrange(lo as int, i as int),
        decreases hi - i,
    {
        r.push(s[i]);
        assert(s@.subrange(lo as int, i + 1) =~= s@.subrange(lo as int, i as int).push(
            s@[i as int],
        ));
        i += 1;
    }
    r
}

/// The number that a text stands for in the given radix.
pub fn parse_number(s: &Vec<char>, radix: u32) -> (r: Option<u32>)
    requires
        2 <= radix <= 16,
    ensures
        r == parse_u32(s@, radix as nat),
{
    let start: usize = if s.len() > 1 && s[0] == '+' {
        1
    } else {
        0
    };
    let ghost digits = s@.skip(start as int);
    assert(start == 0 ==> digits =~= s@);
    assert(start == 1 ==> digits =~= s@.drop_first());
    if s.len() == start {
        return None;
    }
    let mut value: u64 = 0;
    let mut i: usize = start;
    while i < s.len()
        invariant
            2 <= radix <= 16,
            start <= i <= s@.len(),
            start < s@.len(),
            digits == s@.skip(start as int),
            value <= u32::MAX,
            digits_value(digits.take(i - start), radix as nat) == Some(value as nat),
            parse_u32(s@, radix as nat) == (match digits_value(digits, radix as nat) {
                Some(v) if v <= u32::MAX => Some(v as u32),
                _ => None,
            }),
        decreases s@.len() - i,
    {
        let ghost read = digits.take(i - start);
        let ghost next = digits.take(i + 1 - start);
        assert(next.drop_last() =~= read);
        assert(next.last() == s@[i as int]);
        match value_of_digit(s[i], radix) {
            Some(d) => {
                assert(value * radix + d <= u32::MAX * 16 + 16) by (nonlinear_arith)
                    requires
                        value <= u32::MAX,
                        2 <= radix <= 16,
                        d < radix,
                ;
                value = value * radix as u64 + d as u64;
                if value > u32::MAX as u64 {
                    proof {
                        lemma_digits_value_grows(digits, i + 1 - start, radix as nat);
                    }
                    return None;
                }
            },
            None => {
                proof {
                    lemma_digits_value_grows(digits, i + 1 - start, radix as nat);
                }
                return None;
            },
        }
        i += 1;
    }
    assert(digits.take(s@.len() - start) =~= digits);
    Some(value as u32)
}

/// What the first characters of a string of digits rule out stays ruled out:
/// a character that is no digit, and a value that is too large.
proof fn lemma_digits_value_grows(s: Seq<char>, n: int, radix: nat)
    requires
        0 <= n <= s.len(),
        2 <= radix,
    ensures
        digits_value(s.take(n), radix) is None ==> digits_value(s, radix) is None,
        digits_value(s.take(n), radix) matches Some(v) ==> match digits_value(s, radix) {
            Some(w) => v <= w,
            None => true,
        },
    decreases s.len(),
{
    if n == s.len() {
        assert(s.take(n) =~= s);
    } else {
        lemma_digits_value_grows(s.drop_last(), n, radix);
        assert(s.drop_last().take(n) =~= s.take(n));
        if let Some(high) = digits_value(s.drop_last(), radix) {
            assert(high <= high * radix) by (nonlinear_arith)
                requires
                    2 <= radix,
            ;
        }
    }
}

/// Digits are written `0` to `9` and `A` to `F`, and read in either case;
/// nothing else is a digit, nor is a digit that the radix does not have.
pub proof fn law_digits(c: char, v: nat, radix: nat)
    requires
        2 <= radix <= 16,
    ensures
        v < 10 ==> digit_char(v) as int == 48 + v,
        10 <= v < 16 ==> digit_char(v) as int == 55 + v,
        digit_value(c, radix) == Some(v) <==> v < radix && (if v < 10 {
            c as int == 48 + v
        } else {
            c as int == 55 + v || c as int == 87 + v
        }),
{
}

/// A string of digits is read from the left, each digit worth `radix` times
/// the next.
pub proof fn law_digits_are_positional(s: Seq<char>, c: char, v: nat, d: nat, radix: nat)
    requires
        2 <= radix <= 16,
    ensures
        digits_value(Seq::empty(), radix) == Some(0nat),
        digits_value(s, radix) == Some(v) && digit_value(c, radix) == Some(d) ==> digits_value(
            s.push(c),
            radix,
        ) == Some(v * radix + d),
        digits_value(s, radix) is None || digit_value(c, radix) is None ==> digits_value(
            s.push(c),
            radix,
        ) is None,
{
    assert(s.push(c).drop_last() =~= s);
}

/// A number that was written is read back, and it is written without leading
/// zeros and in upper case.
pub proof fn law_numeral_reads_back(n: nat, radix: nat)
    requires
        2 <= radix <= 16,
    ensures
        digits_value(numeral(n, radix), radix) == Some(n),
        numeral(n, radix).len() >= 1,
        numeral(n, radix).len() > 1 ==> numeral(n, radix)[0] != '0',
        forall|i: int|
            0 <= i < numeral(n, radix).len() ==> '0' <= #[trigger] numeral(n, radix)[i] <= '9'
                || 'A' <= numeral(n, radix)[i] <= 'F',
        n < radix ==> numeral(n, radix).len() == 1,
        n >= radix ==> numeral(n, radix).len() == numeral(n / radix, radix).len() + 1,
        n > 0 ==> numeral(n, radix)[0] != '0',
    decreases n,
{
    if n < radix {
        let c = digit_char(n);
        law_digits(c, n, radix);
        assert(seq![c] =~= Seq::<char>::empty().push(c));
        law_digits_are_positional(Seq::empty(), c, 0, n, radix);
        assert(0 * radix + n == n) by (nonlinear_arith);
    } else {
        let high = n / radix;
        let low = n % radix;
        assert(0 < high < n) by (nonlinear_arith)
            requires
                2 <= radix,
                radix <= n,
                high == n / radix,
        ;
        assert(low < radix) by (nonlinear_arith)
            requires
                2 <= radix,
                low == n % radix,
        ;
        vstd::arithmetic::div_mod::lemma_fundamental_div_mod(n as int, radix as int);
        assert(high * radix + low == n) by (nonlinear_arith)
            requires
                n == radix * high + low,
        ;
        law_numeral_reads_back(high, radix);
        let c = digit_char(low);
        law_digits(c, low, radix);
        law_digits_are_positional(numeral(high, radix), c, high, low, radix);
        assert forall|i: int| 0 <= i < numeral(n, radix).len() implies '0' <= #[trigger] numeral(
            n,
            radix,
        )[i] <= '9' || 'A' <= numeral(n, radix)[i] <= 'F' by {
            if i < numeral(high, radix).len() {
                assert(numeral(n, radix)[i] == numeral(high, radix)[i]);
            }
        }
        assert(numeral(n, radix)[0] == numeral(high, radix)[0]);
    }
}

/// Padding puts zeros in front of a text that is too short, and nothing else.
pub proof fn law_padding_adds_zeros_in_front(s: Seq<char>, width: nat)
    ensures
        s.len() >= width ==> zero_padded(s, width) == s,
        s.len() < width ==> zero_padded(s, width).len() == width,
        s.len() < width ==> zero_padded(s, width).skip(width - s.len()) == s,
        forall|i: int| 0 <= i < width - s.len() ==> #[trigger] zero_padded(s, width)[i] == '0',
{
    if s.len() < width {
        assert(zero_padded(s, width).skip(width - s.len()) =~= s);
    }
}

/// Decimal and hexadecimal numbers are read back, and a hexadecimal number has
/// zeros in front only as far as the width asks for them.
pub proof fn law_numbers_read_back(n: nat, width: nat)
    ensures
        digits_value(decimal(n), 10) == Some(n),
        decimal(n).len() > 1 ==> decimal(n)[0] != '0',
        digits_value(hex(n, width), 16) == Some(n),
        hex(n, width).len() >= width,
        hex(n, width).len() > width && hex(n, width).len() > 1 ==> hex(n, width)[0] != '0',
        forall|i: int|
            0 <= i < hex(n, width).len() ==> '0' <= #[trigger] hex(n, width)[i] <= '9' || 'A'
                <= hex(n, width)[i] <= 'F',
        forall|i: int| 0 <= i < decimal(n).len() ==> '0' <= #[trigger] decimal(n)[i] <= '9',
{
    law_numeral_reads_back(n, 10);
    law_numeral_reads_back(n, 16);
    lemma_decimal_digits(n);
    let s = numeral(n, 16);
    if s.len() < width {
        let zeros = Seq::new((width - s.len()) as nat, |i: int| '0');
        lemma_leading_zeros(zeros, s, 16);
    }
}

proof fn lemma_decimal_digits(n: nat)
    ensures
        forall|i: int| 0 <= i < decimal(n).len() ==> '0' <= #[trigger] decimal(n)[i] <= '9',
    decreases n,
{
    if n >= 10 {
        lemma_decimal_digits(n / 10);
        assert forall|i: int| 0 <= i < decimal(n).len() implies '0' <= #[trigger] decimal(n)[i]
            <= '9' by {
            if i < decimal(n / 10).len() {
                assert(decimal(n)[i] == decimal(n / 10)[i]);
            }
        }
    }
}

proof fn lemma_leading_zeros(zeros: Seq<char>, s: Seq<char>, radix: nat)
    requires
        2 <= radix <= 16,
        forall|i: int| 0 <= i < zeros.len() ==> zeros[i] == '0',
    ensures
        digits_value(zeros + s, radix) == digits_value(s, radix),
    decreases zeros.len() + s.len(),
{
    if s.len() > 0 {
        lemma_leading_zeros(zeros, s.drop_last(), radix);
        assert((zeros + s).drop_last() =~= zeros + s.drop_last());
    } else if zeros.len() > 0 {
        lemma_leading_zeros(zeros.drop_last(), s, radix);
        assert((zeros + s).drop_last() =~= zeros.drop_last() + s);
        assert((zeros + s).last() == '0');
        assert(0 * radix + 0 == 0) by (nonlinear_arith);
    } else {
        assert(zeros + s =~= s);
    }
}

/// A byte in hexadecimal is its high digit followed by its low digit.
pub proof fn law_byte_is_two_digits(byte: u8)
    ensures
        hex(byte as nat, 2) == seq![
            digit_char((byte / 16) as nat),
            digit_char((byte % 16) as nat),
        ],
{
    reveal_with_fuel(numeral, 3);
    assert(hex(byte as nat, 2) =~= seq![
        digit_char((byte / 16) as nat),
        digit_char((byte % 16) as nat),
    ]);
}

/// A text is read as a number exactly when it is one or more digits, after at
/// most one plus sign, and then as the number that those digits stand for.
pub proof fn law_reading_numbers(s: Seq<char>, radix: nat, v: u32)
    requires
        2 <= radix <= 16,
    ensures
        s.len() > 1 && s[0] == '+' ==> (parse_u32(s, radix) == Some(v) <==> digits_value(
            s.skip(1),
            radix,
        ) == Some(v as nat)),
        s.len() > 0 && s[0] != '+' ==> (parse_u32(s, radix) == Some(v) <==> digits_value(
            s,
            radix,
        ) == Some(v as nat)),
        s.len() == 0 || s == seq!['+'] ==> parse_u32(s, radix) is None,
        parse_u32(numeral(v as nat, radix), radix) == Some(v),
{
    law_numeral_reads_back(v as nat, radix);
    if s.len() > 1 && s[0] == '+' {
        assert(s.skip(1) =~= s.drop_first());
    }
    if s == seq!['+'] {
        assert(s.drop_last() =~= Seq::<char>::empty());
    }
}

/// Pieces with a separator between each two.
pub open spec fn joined(pieces: Seq<Seq<char>>, sep: char) -> Seq<char>
    decreases pieces.len(),
{
    if pieces.len() == 0 {
        Seq::empty()
    } else if pieces.len() == 1 {
        pieces[0]
    } else {
        joined(pieces.drop_last(), sep) + seq![sep] + pieces.last()
    }
}

/// The pieces of a text hold no separator, and joining them gives the text
/// back.
pub proof fn law_splitting_is_undone_by_joining(s: Seq<char>, sep: char)
    ensures
        split_on(s, sep).len() >= 1,
        joined(split_on(s, sep), sep) == s,
        forall|i: int, j: int|
            0 <= i < split_on(s, sep).len() && 0 <= j < split_on(s, sep)[i].len()
                ==> #[trigger] split_on(s, sep)[i][j] != sep,
    decreases s.len(),
{
    let pieces = split_on(s, sep);
    if s.len() == 0 {
        assert(pieces =~= seq![Seq::<char>::empty()]);
    } else {
        law_splitting_is_undone_by_joining(s.drop_last(), sep);
        let before = split_on(s.drop_last(), sep);
        assert(s =~= s.drop_last().push(s.last()));
        if s.last() == sep {
            assert(pieces.drop_last() =~= before);
            assert(joined(pieces, sep) =~= s);
        } else {
            assert(pieces.drop_last() =~= before.drop_last());
            assert(pieces.last() =~= before.last().push(s.last()));
            assert(joined(pieces, sep) =~= joined(before, sep).push(s.last()));
        }
        assert forall|i: int, j: int|
            0 <= i < pieces.len() && 0 <= j < pieces[i].len() implies #[trigger] pieces[i][j]
            != sep by {
            if i < before.len() && j < before[i].len() {
                assert(pieces[i][j] == before[i][j]);
            }
        }
    }
}

/// Whether a text has only white space before `lo` and from `hi` on.
pub open spec fn white_outside(s: Seq<char>, lo: int, hi: int) -> bool {
    &&& 0 <= lo <= hi <= s.len()
    &&& forall|i: int| 0 <= i < lo ==> is_white(#[trigger] s[i])
    &&& forall|i: int| hi <= i < s.len() ==> is_white(#[trigger] s[i])
}

/// Trimming cuts off white space on both sides and nothing else, and leaves
/// none there.
pub proof fn law_trimming_cuts_off_white_space(s: Seq<char>)
    ensures
        exists|lo: int, hi: int| #[trigger]
            white_outside(s, lo, hi) && trimmed(s) == s.subrange(lo, hi),
        trimmed(s).len() > 0 ==> !is_white(trimmed(s)[0]) && !is_white(trimmed(s).last()),
{
    let lo = lemma_trim_start(s);
    let body = trim_start(s);
    let hi = lemma_trim_end(body);
    assert(trimmed(s) =~= s.subrange(lo, lo + hi));
    assert forall|i: int| lo + hi <= i < s.len() implies is_white(#[trigger] s[i]) by {
        assert(s[i] == body[i - lo]);
    }
    assert(white_outside(s, lo, lo + hi));
    if trimmed(s).len() > 0 {
        assert(trimmed(s)[0] == body[0]);
    }
}

proof fn lemma_trim_start(s: Seq<char>) -> (lo: int)
    ensures
        0 <= lo <= s.len(),
        trim_start(s) == s.skip(lo),
        forall|i: int| 0 <= i < lo ==> is_white(#[trigger] s[i]),
        trim_start(s).len() > 0 ==> !is_white(trim_start(s)[0]),
    decreases s.len(),
{
    if s.len() > 0 && is_white(s[0]) {
        let lo = lemma_trim_start(s.drop_first());
        assert(s.drop_first().skip(lo) =~= s.skip(lo + 1));
        assert forall|i: int| 0 <= i < lo + 1 implies is_white(#[trigger] s[i]) by {
            if i > 0 {
                assert(s[i] == s.drop_first()[i - 1]);
            }
        }
        lo + 1
    } else {
        assert(s.skip(0) =~= s);
        0
    }
}

proof fn lemma_trim_end(s: Seq<char>) -> (hi: int)
    ensures
        0 <= hi <= s.len(),
        trim_end(s) == s.take(hi),
        forall|i: int| hi <= i < s.len() ==> is_white(#[trigger] s[i]),
        trim_end(s).len() > 0 ==> !is_white(trim_end(s).last()),
    decreases s.len(),
{
    if s.len() > 0 && is_white(s.last()) {
        let hi = lemma_trim_end(s.drop_last());
        assert(s.drop_last().take(hi) =~= s.take(hi));
        assert forall|i: int| hi <= i < s.len() implies is_white(#[trigger] s[i]) by {
            if i < s.len() - 1 {
                assert(s[i] == s.drop_last()[i]);
            }
        }
        hi
    } else {
        assert(s.take(s.len() as int) =~= s);
        s.len() as int
    }
}

/// Whether a text starts with `n` pairs of a zero and `x`.
pub open spec fn starts_with_pairs(s: Seq<char>, n: int, x: char) -> bool {
    &&& 0 <= 2 * n <= s.len()
    &&& forall|i: int| 0 <= i < 2 * n ==> #[trigger] s[i] == (if i % 2 == 0 {
        '0'
    } else {
        x
    })
}

/// What stripping takes off is pairs of a zero and `x`, all that stand in
/// front.
pub proof fn law_stripping_takes_off_pairs(s: Seq<char>, x: char)
    ensures
        exists|n: int| #[trigger]
            starts_with_pairs(s, n, x) && strip_zero_and(s, x) == s.skip(2 * n),
        strip_zero_and(s, x).len() >= 2 ==> !(strip_zero_and(s, x)[0] == '0' && strip_zero_and(
            s,
            x,
        )[1] == x),
    decreases s.len(),
{
    if s.len() >= 2 && s[0] == '0' && s[1] == x {
        law_stripping_takes_off_pairs(s.skip(2), x);
        let n = choose|n: int| #[trigger]
            starts_with_pairs(s.skip(2), n, x) && strip_zero_and(s.skip(2), x) == s.skip(2).skip(
                2 * n,
            );
        assert(s.skip(2).skip(2 * n) =~= s.skip(2 * (n + 1)));
        assert forall|i: int| 0 <= i < 2 * (n + 1) implies #[trigger] s[i] == (if i % 2 == 0 {
            '0'
        } else {
            x
        }) by {
            if i >= 2 {
                assert(s[i] == s.skip(2)[i - 2]);
            }
        }
        assert(starts_with_pairs(s, n + 1, x));
    } else {
        assert(s.skip(0) =~= s);
        assert(starts_with_pairs(s, 0, x));
    }
}

/// Milliseconds are three digits, hundreds first.
pub proof fn law_millis_are_three_digits(millis: nat)
    requires
        millis < 1000,
    ensures
        zero_padded(decimal(millis), 3) == seq![
            digit_char(millis / 100),
            digit_char(millis / 10 % 10),
            digit_char(millis % 10),
        ],
{
    reveal_with_fuel(numeral, 4);
    assert(zero_padded(decimal(millis), 3) =~= seq![
        digit_char(millis / 100),
        digit_char(millis / 10 % 10),
        digit_char(millis % 10),
    ]);
}

/// However many pairs of a zero and `x` stand in front, just those are taken
/// off.
pub proof fn law_all_pairs_are_stripped(s: Seq<char>, n: int, x: char)
    requires
        starts_with_pairs(s, n, x),
        !starts_with_pairs(s, n + 1, x),
    ensures
        strip_zero_and(s, x) == s.skip(2 * n),
{
    law_stripping_takes_off_pairs(s, x);
    let k = choose|k: int| #[trigger]
        starts_with_pairs(s, k, x) && strip_zero_and(s, x) == s.skip(2 * k);
    if k > n {
        assert forall|i: int| 0 <= i < 2 * (n + 1) implies #[trigger] s[i] == (if i % 2 == 0 {
            '0'
        } else {
            x
        }) by {
            assert(i < 2 * k);
        }
        assert(starts_with_pairs(s, n + 1, x));
    } else if k < n {
        let rest = s.skip(2 * k);
        assert(rest[0] == s[2 * k]);
        assert(rest[1] == s[2 * k + 1]);
    }
}

} // verus!
