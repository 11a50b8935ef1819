//! Numbers written out: decimal and hexadecimal.
use vstd::prelude::*;
use vstd::string::*;

verus! {

/// The character for a digit below sixteen; letters are in lower case.
pub open spec fn digit(d: int) -> char {
    if d < 10 {
        (48 + d) as char
    } else {
        (87 + d) as char
    }
}

/// `n` in the given base, without leading zeros; zero is one digit.
pub open spec fn numeral(n: nat, base: nat) -> Seq<char>
    decreases n,
{
    if base < 2 || n < base {
        seq![digit(n as int)]
    } else {
        proof {
            assert(n / base < n) by (nonlinear_arith)
                requires
                    n >= base,
                    base >= 2,
            ;
        }
        numeral(n / base, base).push(digit((n % base) as int))
    }
}

/// `n` in decimal.
pub open spec fn decimal(n: nat) -> Seq<char> {
    numeral(n, 10)
}

/// `n` in decimal, with a minus sign where it is negative.
pub open spec fn signed_decimal(n: int) -> Seq<char> {
    if n < 0 {
        seq!['-'] + decimal((-n) as nat)
    } else {
        decimal(n as nat)
    }
}

/// `s` with zeros in front of it, so that it has at least `width` characters.
pub open spec fn zero_padded(s: Seq<char>, width: nat) -> Seq<char> {
    if s.len() < width {
        Seq::new((width - s.len()) as nat, |i: int| '0') + s
    } else {
        s
    }
}

/// Two hexadecimal digits for each byte, the high half first.
pub open spec fn hex_of(bytes: Seq<u8>) -> Seq<char>
    decreases bytes.len(),
{
    if bytes.len() == 0 {
        Seq::empty()
    } else {
        hex_of(bytes.drop_last()) + seq![
            digit(bytes.last() as int / 16),
            digit(bytes.last() as int % 16),
        ]
    }
}

/// The character for a digit below sixteen.
pub fn digit_char(d: u8) -> (r: char)
    requires
        d < 16,
    ensures
        r == digit(d as int),
{
    if d < 10 {
        (48 + d) as char
    } else {
        (87 + d) as char
    }
}

/// The characters of `n` in the given base.
fn digits(n: u128, base: u128) -> (r: Vec<char>)
    requires
        2 <= base <= 16,
    ensures
        r@ == numeral(n as nat, base as nat),
    decreases n,
{
    if n < base {
        let mut one: Vec<char> = Vec::new();
        one.push(digit_char(n as u8));
        assert(one@ == seq![digit(n as int)]);
        one
    } else {
        proof {
            assert(n / base < n) by (nonlinear_arith)
                requires
                    n >= base,
                    base >= 2,
            ;
        }
        let mut front = digits(n / base, base);
        front.push(digit_char((n % base) as u8));
        front
    }
}

/// `n` in decimal.
pub fn decimal_u64(n: u64) -> (r: String)
    ensures
        r@ == decimal(n as nat),
{
    let d = digits(n as u128, 10);
    crate::text::string_of(d.as_slice())
}

/// `n` in decimal, with its sign.
pub fn decimal_i64(n: i64) -> (r: String)
    ensures
        r@ == signed_decimal(n as int),
{
    if n < 0 {
        let magnitude: u64 = (-(n as i128)) as u64;
        let d = decimal_u64(magnitude);
        let mut out = String::new();
        out.push('-');
        assert(out@ == seq!['-']);
        out.append(d.as_str());
        out
    } else {
        decimal_u64(n as u64)
    }
}

/// `n` in lower-case hexadecimal, with zeros in front up to `width` digits.
pub fn hex_padded(n: u128, width: usize) -> (r: String)
    ensures
        r@ == zero_padded(numeral(n as nat, 16), width as nat),
{
    let d = digits(n, 16);
    let mut out: Vec<char> = Vec::new();
    if d.len() < width {
        let lack: usize = width - d.len();
        for i in 0..lack
            invariant
                out@ == Seq::new(i as nat, |j: int| '0'),
        {
            out.push('0');
            assert(out@ == Seq::new((i + 1) as nat, |j: int| '0'));
        }
    }
    let ghost zeros = out@;
    for i in 0..d.len()
        invariant
            out@ == zeros + d@.take(i as int),
    {
        out.push(d[i]);
        assert(d@.take(i + 1) == d@.take(i as int).push(d@[i as int]));
    }
    assert(d@.take(d@.len() as int) == d@);
    assert(out@ == zero_padded(d@, width as nat));
    crate::text::string_of(out.as_slice())
}

/// Two hexadecimal digits for each byte.
pub fn hex_text(bytes: &[u8]) -> (r: String)
    ensures
        r@ == hex_of(bytes@),
{
    let mut out = String::new();
    for i in 0..bytes.len()
        invariant
            out@ == hex_of(bytes@.take(i as int)),
    {
        let b: u8 = bytes[i];
        out.push(digit_char(b / 16));
        out.push(digit_char(b % 16));
        assert(bytes@.take(i + 1).drop_last() == bytes@.take(i as int));
        assert(out@ == hex_of(bytes@.take(i as int)) + seq![
            digit(b as int / 16),
            digit(b as int % 16),
        ]);
    }
    assert(bytes@.take(bytes@.len() as int) == bytes@);
    out
}

/// The value of a digit.
pub open spec fn digit_value(c: char) -> int {
    if '0' <= c <= '9' {
        c as int - 48
    } else {
        c as int - 87
    }
}

/// The number that digits stand for.
pub open spec fn value_of(digits: Seq<char>, base: int) -> int
    decreases digits.len(),
{
    if digits.len() == 0 {
        0
    } else {
        value_of(digits.drop_last(), base) * base + digit_value(digits.last())
    }
}

/// A number that is written out reads as that number: its digits are below the base, they stand
/// for the number, and none of them is a needless zero in front.
pub proof fn numeral_reads_as_its_number(n: nat, base: nat)
    requires
        2 <= base <= 16,
    ensures
        numeral(n, base).len() > 0,
        value_of(numeral(n, base), base as int) == n,
        forall|i: int|
            0 <= i < numeral(n, base).len() ==> {
                let c = #[trigger] numeral(n, base)[i];
                ('0' <= c <= '9' || 'a' <= c <= 'f') && digit_value(c) < base
            },
        n > 0 ==> numeral(n, base)[0] != '0',
        n == 0 ==> numeral(n, base) == seq!['0'],
    decreases n,
{
    reveal_with_fuel(value_of, 2);
    let text = numeral(n, base);
    if n < base {
        assert(text == seq![digit(n as int)]);
        assert(text.drop_last() == Seq::<char>::empty());
    } else {
        assert(0 < n / base < n) by (nonlinear_arith)
            requires
                n >= base,
                base >= 2,
        ;
        numeral_reads_as_its_number(n / base, base);
        let front = numeral(n / base, base);
        assert(text.drop_last() == front);
        assert(text.last() == digit((n % base) as int));
        assert((n / base) * base + n % base == n) by (nonlinear_arith)
            requires
                base >= 2,
        ;
        assert(text[0] == front[0]);
        assert forall|i: int| 0 <= i < text.len() implies {
            let c = #[trigger] text[i];
            ('0' <= c <= '9' || 'a' <= c <= 'f') && digit_value(c) < base
        } by {
            if i < front.len() {
                assert(text[i] == front[i]);
            }
        }
    }
}

/// The sign of a number is a minus in front of its digits, where it is negative.
pub proof fn sign_stands_in_front(n: nat)
    ensures
        value_of(decimal(n), 10) == n,
        signed_decimal(n as int) == decimal(n),
        n > 0 ==> signed_decimal(-(n as int)) == seq!['-'] + decimal(n),
{
    numeral_reads_as_its_number(n, 10);
}

/// Padding puts zeros in front, as many as are wanting, and changes nothing else.
pub proof fn padding_is_zeros_in_front(s: Seq<char>, width: nat)
    ensures
        zero_padded(s, width).len() == (if s.len() < width {
            width
        } else {
            s.len()
        }),
        s == zero_padded(s, width).skip(zero_padded(s, width).len() - s.len()),
        forall|i: int|
            0 <= i < zero_padded(s, width).len() - s.len() ==> #[trigger] zero_padded(s, width)[i]
                == '0',
{
}

/// Bytes are written out one after the other, each as two digits that stand for it.
pub proof fn bytes_are_written_one_by_one(front: Seq<u8>, b: u8)
    ensures
        hex_of(front.push(b)).len() == hex_of(front).len() + 2,
        hex_of(front).is_prefix_of(hex_of(front.push(b))),
        value_of(hex_of(front.push(b)).skip(hex_of(front).len() as int), 16) == b,
        hex_of(Seq::<u8>::empty()) == Seq::<char>::empty(),
{
    reveal_with_fuel(value_of, 3);
    let all = hex_of(front.push(b));
    let n = hex_of(front).len() as int;
    assert(front.push(b).drop_last() == front);
    assert(hex_of(front) == all.subrange(0, n));
    let two = all.skip(n);
    assert(two == seq![digit(b as int / 16), digit(b as int % 16)]);
    assert(two.drop_last() == seq![digit(b as int / 16)]);
    assert(two.drop_last().drop_last() == Seq::<char>::empty());
    assert(value_of(two, 16) == (b as int / 16) * 16 + b as int % 16);
}

} // verus!
