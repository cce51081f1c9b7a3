//! Text for the screen: numbers in decimal, a MAC address in hexadecimal.

use vstd::prelude::*;

verus! {

/// The character of a decimal or upper-case hexadecimal digit.
pub open spec fn digit_char(d: nat) -> char {
    if d < 10 {
        (48 + d) as char
    } else {
        (55 + d) as char
    }
}

/// A natural number in decimal, without leading zeros.
pub open spec fn decimal(n: nat) -> Seq<char>
    decreases n,
{
    if n < 10 {
        seq![digit_char(n)]
    } else {
        decimal(n / 10).push(digit_char(n % 10))
    }
}

/// An integer in decimal, with a minus sign where it is negative.
pub open spec fn signed_decimal(n: int) -> Seq<char> {
    if n < 0 {
        seq!['-'] + decimal((-n) as nat)
    } else {
        decimal(n as nat)
    }
}

/// A byte as two upper-case hexadecimal digits.
pub open spec fn hex_byte(b: u8) -> Seq<char> {
    seq![digit_char((b / 16) as nat), digit_char((b % 16) as nat)]
}

/// The first `n` bytes of an address, separated by colons.
pub open spec fn hex_address(bytes: Seq<u8>, n: nat) -> Seq<char>
    decreases n,
{
    if n == 0 {
        seq![]
    } else if n == 1 {
        hex_byte(bytes[0])
    } else {
        hex_address(bytes, (n - 1) as nat).push(':') + hex_byte(bytes[n - 1])
    }
}

fn digit(d: u8) -> (s: &'static str)
    requires
        d < 16,
    ensures
        s@ == seq![digit_char(d as nat)],
{
    proof {
        reveal_strlit("0");
        reveal_strlit("1");
        reveal_strlit("2");
        reveal_strlit("3");
        reveal_strlit("4");
        reveal_strlit("5");
        reveal_strlit("6");
        reveal_strlit("7");
        reveal_strlit("8");
        reveal_strlit("9");
        reveal_strlit("A");
        reveal_strlit("B");
        reveal_strlit("C");
        reveal_strlit("D");
        reveal_strlit("E");
        reveal_strlit("F");
    }
    match d {
        0 => "0",
        1 => "1",
        2 => "2",
        3 => "3",
        4 => "4",
        5 => "5",
        6 => "6",
        7 => "7",
        8 => "8",
        9 => "9",
        10 => "A",
        11 => "B",
        12 => "C",
        13 => "D",
        14 => "E",
        _ => "F",
    }
}

/// Appends `n` in decimal.
pub fn push_decimal(text: &mut String, n: u64)
    ensures
        final(text)@ == old(text)@ + decimal(n as nat),
    decreases n,
{
    if n >= 10 {
        push_decimal(text, n / 10);
    }
    text.append(digit((n % 10) as u8));
    assert(text@ =~= old(text)@ + decimal(n as nat));
}

/// Appends `n` in decimal, with its sign where it is negative.
pub fn push_signed(text: &mut String, n: i64)
    ensures
        final(text)@ == old(text)@ + signed_decimal(n as int),
{
    if n < 0 {
        proof {
            reveal_strlit("-");
        }
        text.append("-");
        let magnitude: u64 = (-(n as i128)) as u64;
        push_decimal(text, magnitude);
        assert(text@ =~= old(text)@ + signed_decimal(n as int));
    } else {
        push_decimal(text, n as u64);
    }
}

/// A MAC address as six hexadecimal bytes separated by colons.
pub fn format_mac(mac: &[u8; 6]) -> (text: String)
    ensures
        text@ == hex_address(mac@, 6),
{
    let mut text = String::new();
    let mut i: usize = 0;
    while i < 6
        invariant
            i <= 6,
            text@ == hex_address(mac@, i as nat),
        decreases 6 - i,
    {
        let ghost before = text@;
        if i > 0 {
            proof {
                reveal_strlit(":");
            }
            text.append(":");
            assert(text@ =~= before.push(':'));
        }
        let byte = mac[i];
        text.append(digit(byte / 16));
        text.append(digit(byte % 16));
        i += 1;
        assert(text@ =~= hex_address(mac@, i as nat));
    }
    text
}

/// A decimal number of at most `digits` digits is at most `digits` characters long.
pub proof fn lemma_decimal_length(n: nat, digits: nat)
    requires
        digits >= 1,
        n < vstd::arithmetic::power::pow(10, digits),
    ensures
        1 <= decimal(n).len() <= digits,
    decreases digits,
{
    reveal_with_fuel(vstd::arithmetic::power::pow, 2);
    if n >= 10 {
        let p = vstd::arithmetic::power::pow(10, (digits - 1) as nat);
        assert(digits > 1);
        assert(n / 10 < p);
        lemma_decimal_length(n / 10, (digits - 1) as nat);
    }
}

/// The number that a run of decimal digits stands for.
pub open spec fn number_read(text: Seq<char>) -> int
    decreases text.len(),
{
    if text.len() == 0 {
        0
    } else {
        10 * number_read(text.drop_last()) + (text.last() as int - '0' as int)
    }
}

/// A number in decimal reads back as that number: it is made of digits only, and does
/// not begin with 0 unless it is 0.
pub proof fn law_decimal_reads_back(n: nat)
    ensures
        number_read(decimal(n)) == n,
        decimal(n).len() >= 1,
        forall|i: int| 0 <= i < decimal(n).len() ==> '0' <= #[trigger] decimal(n)[i] <= '9',
        n > 0 ==> decimal(n)[0] != '0',
    decreases n,
{
    if n < 10 {
        reveal_with_fuel(number_read, 2);
        assert(decimal(n).drop_last() =~= seq![]);
    } else {
        law_decimal_reads_back(n / 10);
        assert(decimal(n).drop_last() =~= decimal(n / 10));
    }
}

/// A signed number is a minus sign, if it is negative and only then, and its magnitude.
pub proof fn law_signed_decimal_reads_back(n: int)
    ensures
        n >= 0 ==> number_read(signed_decimal(n)) == n,
        n >= 0 ==> '0' <= signed_decimal(n)[0] <= '9',
        n < 0 ==> signed_decimal(n)[0] == '-',
        n < 0 ==> number_read(signed_decimal(n).skip(1)) == -n,
        n < 0 ==> '0' < signed_decimal(n)[1] <= '9',
        forall|i: int|
            1 <= i < signed_decimal(n).len() ==> '0' <= #[trigger] signed_decimal(n)[i] <= '9',
{
    if n < 0 {
        law_decimal_reads_back((-n) as nat);
        assert(signed_decimal(n).skip(1) =~= decimal((-n) as nat));
    } else {
        law_decimal_reads_back(n as nat);
    }
}

/// The value of an upper-case hexadecimal digit.
pub open spec fn hex_value(c: char) -> int {
    if '0' <= c <= '9' {
        c as int - '0' as int
    } else {
        c as int - 'A' as int + 10
    }
}

/// Whether a character is a digit or one of A to F.
pub open spec fn is_hex(c: char) -> bool {
    '0' <= c <= '9' || 'A' <= c <= 'F'
}

/// An address reads back: byte `i` of it stands in the characters `3 * i` and
/// `3 * i + 1`, higher digit first, and a colon between each byte and the next.
pub proof fn law_address_reads_back(bytes: Seq<u8>, n: nat, i: int)
    requires
        0 <= i < n <= bytes.len(),
    ensures
        hex_address(bytes, n).len() == 3 * n - 1,
        is_hex(hex_address(bytes, n)[3 * i]),
        is_hex(hex_address(bytes, n)[3 * i + 1]),
        16 * hex_value(hex_address(bytes, n)[3 * i]) + hex_value(hex_address(bytes, n)[3 * i + 1])
            == bytes[i],
        i + 1 < n ==> hex_address(bytes, n)[3 * i + 2] == ':',
    decreases n,
{
    if n > 1 {
        if i + 1 < n {
            law_address_reads_back(bytes, (n - 1) as nat, i);
        } else {
            law_address_reads_back(bytes, (n - 1) as nat, 0);
        }
    }
}

} // verus!
