//! Numbers in text, and the lines that the program reports with.

use vstd::arithmetic::div_mod::lemma_div_denominator;
use vstd::arithmetic::power::{lemma_pow0, lemma_pow_increases, lemma_pow_positive, pow};
use vstd::prelude::*;
use vstd::string::StrSliceExecFns;
use vstd::string::StringExecFns;

use crate::endpoint::Chosen;

verus! {

/// The character of a decimal digit.
pub open spec fn digit(d: int) -> char {
    ('0' as int + d) as char
}

/// The decimal notation of a number, without leading zeros.
pub open spec fn decimal(n: nat) -> Seq<char>
    decreases n,
{
    if n < 10 {
        seq![digit(n as int)]
    } else {
        decimal(n / 10).push(digit((n % 10) as int))
    }
}

/// The decimal notation of a number, filled up with leading zeros to at least four digits.
pub open spec fn padded(n: nat) -> Seq<char> {
    let d = decimal(n);
    if d.len() < 4 {
        Seq::new((4 - d.len()) as nat, |i: int| '0') + d
    } else {
        d
    }
}

/// The character of a hexadecimal digit, in lower case.
pub open spec fn hex_digit(d: int) -> char {
    if d < 10 {
        ('0' as int + d) as char
    } else {
        ('a' as int + (d - 10)) as char
    }
}

/// The hexadecimal notation of a number, without leading zeros.
pub open spec fn hex(n: nat) -> Seq<char>
    decreases n,
{
    if n < 16 {
        seq![hex_digit(n as int)]
    } else {
        hex(n / 16).push(hex_digit((n % 16) as int))
    }
}

/// The hexadecimal notation of a number, filled up with leading zeros to at least `width` digits.
pub open spec fn hex_padded(n: nat, width: nat) -> Seq<char> {
    let h = hex(n);
    if h.len() < width {
        Seq::new((width - h.len()) as nat, |i: int| '0') + h
    } else {
        h
    }
}

/// Appends the decimal notation of `n`.
pub fn append_decimal(s: &mut String, n: u64)
    ensures
        final(s)@ == old(s)@ + decimal(n as nat),
    decreases n,
{
    if n >= 10 {
        append_decimal(s, n / 10);
    }
    let ghost before = s@;
    let d: usize = (n % 10) as usize;
    proof {
        reveal_strlit("0123456789");
    }
    let one: &str = "0123456789".substring_char(d, d + 1);
    s.append(one);
    assert(s@ =~= before.push(digit(d as int)));
    assert(s@ =~= old(s)@ + decimal(n as nat));
}

/// How many digits the small numbers have.
pub proof fn lemma_decimal_len(n: nat)
    ensures
        n < 10 ==> decimal(n).len() == 1,
        10 <= n < 100 ==> decimal(n).len() == 2,
        100 <= n < 1000 ==> decimal(n).len() == 3,
        1000 <= n ==> decimal(n).len() >= 4,
    decreases n,
{
    if n >= 10 {
        lemma_decimal_len(n / 10);
    }
}

/// Appends the hexadecimal notation of `n` in at least `width` digits.
pub fn append_hex(s: &mut String, n: u16, width: u8)
    requires
        width >= 1,
    ensures
        final(s)@ == old(s)@ + hex_padded(n as nat, width as nat),
    decreases n, width,
{
    if n >= 16 || width > 1 {
        append_hex(
            s,
            n / 16,
            if width > 1 {
                (width - 1) as u8
            } else {
                1
            },
        );
    }
    let ghost before = s@;
    let d: usize = (n % 16) as usize;
    proof {
        reveal_strlit("0123456789abcdef");
    }
    let one: &str = "0123456789abcdef".substring_char(d, d + 1);
    s.append(one);
    assert(s@ =~= before.push(hex_digit(d as int)));
    assert(s@ =~= old(s)@ + hex_padded(n as nat, width as nat));
}

/// The start of the line that reports a register write that failed; the error itself follows.
pub open spec fn write_failed_text(index: u16, value: u8) -> Seq<char> {
    "reg_w 0x"@ + hex_padded(index as nat, 4) + "=0x"@ + hex_padded(value as nat, 2) + " failed: "@
}

/// The line that reports a sensor register whose handshake was given up.
pub open spec fn timed_out_text(reg: u16) -> Seq<char> {
    "i2c_write reg 0x"@ + hex_padded(reg as nat, 2) + " timed out"@
}

/// The line that tells which endpoint is streamed from.
pub open spec fn endpoint_text(c: Chosen) -> Seq<char> {
    "using alt "@ + decimal(c.setting as nat) + ", ep 0x"@ + hex_padded(c.address as nat, 2) + ", "@
        + decimal(c.bytes as nat) + " bytes/packet"@
}

/// The line that reports the frame rate.
pub open spec fn rate_text(frames: u64) -> Seq<char> {
    decimal(frames as nat) + " fps"@
}

/// Reports a register write that failed: `reg_w 0x8112=0x30 failed: `, with the error to follow.
pub fn write_failed(index: u16, value: u8) -> (line: String)
    ensures
        line@ == write_failed_text(index, value),
{
    let mut s: String = String::new();
    s.append("reg_w 0x");
    append_hex(&mut s, index, 4);
    s.append("=0x");
    append_hex(&mut s, value as u16, 2);
    s.append(" failed: ");
    assert(s@ =~= write_failed_text(index, value));
    s
}

/// Reports a handshake that was given up: `i2c_write reg 0x39 timed out`.
pub fn timed_out(reg: u16) -> (line: String)
    ensures
        line@ == timed_out_text(reg),
{
    let mut s: String = String::new();
    s.append("i2c_write reg 0x");
    append_hex(&mut s, reg, 2);
    s.append(" timed out");
    assert(s@ =~= timed_out_text(reg));
    s
}

/// Tells which endpoint is streamed from: `using alt 7, ep 0x81, 1023 bytes/packet`.
pub fn endpoint_line(c: &Chosen) -> (line: String)
    ensures
        line@ == endpoint_text(*c),
{
    let mut s: String = String::new();
    s.append("using alt ");
    append_decimal(&mut s, c.setting as u64);
    s.append(", ep 0x");
    append_hex(&mut s, c.address as u16, 2);
    s.append(", ");
    append_decimal(&mut s, c.bytes as u64);
    s.append(" bytes/packet");
    assert(s@ =~= endpoint_text(*c));
    s
}

/// Reports the frame rate: `5 fps`.
pub fn rate_line(frames: u64) -> (line: String)
    ensures
        line@ == rate_text(frames),
{
    let mut s: String = String::new();
    append_decimal(&mut s, frames);
    s.append(" fps");
    assert(s@ =~= rate_text(frames));
    s
}

/// The number that a decimal notation denotes.
pub open spec fn denoted(s: Seq<char>) -> int
    decreases s.len(),
{
    if s.len() == 0 {
        0
    } else {
        10 * denoted(s.drop_last()) + (s.last() as int - '0' as int)
    }
}

proof fn lemma_decimal_denotes(n: nat)
    ensures
        denoted(decimal(n)) == n,
    decreases n,
{
    let s = decimal(n);
    if n < 10 {
        assert(s.drop_last() =~= Seq::empty());
        assert(denoted(s.drop_last()) == 0);
    } else {
        lemma_decimal_denotes(n / 10);
        assert(s.drop_last() =~= decimal(n / 10));
    }
}

proof fn lemma_leading_zeros(zeros: Seq<char>, s: Seq<char>)
    requires
        forall|i: int| 0 <= i < zeros.len() ==> zeros[i] == '0',
    ensures
        denoted(zeros + s) == denoted(s),
    decreases zeros.len() + s.len(),
{
    if s.len() > 0 {
        assert((zeros + s).drop_last() =~= zeros + s.drop_last());
        lemma_leading_zeros(zeros, s.drop_last());
    } else if zeros.len() > 0 {
        assert((zeros + s).drop_last() =~= zeros.drop_last() + s);
        lemma_leading_zeros(zeros.drop_last(), s);
    } else {
        assert(zeros + s =~= s);
    }
}

/// A padded number denotes the number.
pub proof fn law_padded_denotes(n: nat)
    ensures
        denoted(padded(n)) == n,
{
    lemma_decimal_denotes(n);
    let d = decimal(n);
    if d.len() < 4 {
        lemma_leading_zeros(Seq::new((4 - d.len()) as nat, |i: int| '0'), d);
    }
}

/// Dividing by a base and then by one of its powers is dividing by the next power.
proof fn lemma_next_power(n: nat, base: int, k: nat)
    requires
        base > 1,
        k > 0,
    ensures
        n as int / base / pow(base, (k - 1) as nat) == n as int / pow(base, k),
        pow(base, k) == base * pow(base, (k - 1) as nat),
{
    reveal(pow);
    lemma_pow_positive(base, (k - 1) as nat);
    lemma_div_denominator(n as int, base, pow(base, (k - 1) as nat));
}

/// The digit at a place of a decimal notation, counted from the right, is the number divided by
/// that power of ten, modulo ten.
pub proof fn law_decimal_places(n: nat, k: nat)
    requires
        k < decimal(n).len(),
    ensures
        decimal(n)[decimal(n).len() - 1 - k] as int == '0' as int + n as int / pow(10, k) % 10,
    decreases n,
{
    lemma_pow0(10);
    if n >= 10 && k > 0 {
        law_decimal_places(n / 10, (k - 1) as nat);
        lemma_next_power(n, 10, k);
    }
}

/// A decimal notation has as many digits as the number needs and no more.
pub proof fn law_decimal_length(n: nat)
    ensures
        decimal(n).len() >= 1,
        n < pow(10, decimal(n).len()),
        decimal(n).len() > 1 ==> n >= pow(10, (decimal(n).len() - 1) as nat),
    decreases n,
{
    lemma_pow0(10);
    lemma_next_power(n, 10, 1);
    if n >= 10 {
        law_decimal_length(n / 10);
        let k = decimal(n / 10).len();
        lemma_next_power(n, 10, k + 1);
        lemma_next_power(n, 10, k);
        if k == 1 {
            assert(pow(10, 1) == 10);
        }
    }
}

/// The digit at a place of a hexadecimal notation, counted from the right, is the number divided
/// by that power of sixteen, modulo sixteen, and a letter is in lower case.
pub proof fn law_hex_places(n: nat, k: nat)
    requires
        k < hex(n).len(),
    ensures
        hex(n)[hex(n).len() - 1 - k] == "0123456789abcdef"@[n as int / pow(16, k) % 16],
    decreases n,
{
    lemma_pow0(16);
    reveal_strlit("0123456789abcdef");
    if n >= 16 && k > 0 {
        law_hex_places(n / 16, (k - 1) as nat);
        lemma_next_power(n, 16, k);
    }
}

/// A hexadecimal notation has as many digits as the number needs and no more.
pub proof fn law_hex_length(n: nat)
    ensures
        hex(n).len() >= 1,
        n < pow(16, hex(n).len()),
        hex(n).len() > 1 ==> n >= pow(16, (hex(n).len() - 1) as nat),
    decreases n,
{
    lemma_pow0(16);
    lemma_next_power(n, 16, 1);
    if n >= 16 {
        law_hex_length(n / 16);
        let k = hex(n / 16).len();
        lemma_next_power(n, 16, k + 1);
        lemma_next_power(n, 16, k);
        if k == 1 {
            assert(pow(16, 1) == 16);
        }
    }
}

/// A padded number has at least four digits, and more only if it needs them.
pub proof fn law_padded_length(n: nat)
    ensures
        padded(n).len() >= 4,
        n < pow(10, padded(n).len()),
        padded(n).len() > 4 ==> n >= pow(10, (padded(n).len() - 1) as nat),
{
    law_decimal_length(n);
    lemma_pow_increases(10, decimal(n).len(), padded(n).len());
}

/// The digit at a place of a padded number, counted from the right, is the number divided by that
/// power of ten, modulo ten.
pub proof fn law_padded_places(n: nat, k: nat)
    requires
        k < padded(n).len(),
    ensures
        padded(n)[padded(n).len() - 1 - k] as int == '0' as int + n as int / pow(10, k) % 10,
{
    let len = decimal(n).len();
    law_decimal_length(n);
    if k < len {
        law_decimal_places(n, k);
    } else {
        lemma_pow_increases(10, len, k);
        vstd::arithmetic::div_mod::lemma_basic_div(n as int, pow(10, k));
    }
}

/// A padded hexadecimal number has at least the given number of digits, and more only if it needs
/// them.
pub proof fn law_hex_padded_length(n: nat, width: nat)
    requires
        width >= 1,
    ensures
        hex_padded(n, width).len() >= width,
        n < pow(16, hex_padded(n, width).len()),
        hex_padded(n, width).len() > width ==> n >= pow(
            16,
            (hex_padded(n, width).len() - 1) as nat,
        ),
{
    law_hex_length(n);
    lemma_pow_increases(16, hex(n).len(), hex_padded(n, width).len());
}

/// The digit at a place of a padded hexadecimal number, counted from the right, is the number
/// divided by that power of sixteen, modulo sixteen, and a letter is in lower case.
pub proof fn law_hex_padded_places(n: nat, width: nat, k: nat)
    requires
        k < hex_padded(n, width).len(),
    ensures
        hex_padded(n, width)[hex_padded(n, width).len() - 1 - k] == "0123456789abcdef"@[n as int
            / pow(16, k) % 16],
{
    let len = hex(n).len();
    law_hex_length(n);
    reveal_strlit("0123456789abcdef");
    if k < len {
        law_hex_places(n, k);
    } else {
        lemma_pow_increases(16, len, k);
        vstd::arithmetic::div_mod::lemma_basic_div(n as int, pow(16, k));
    }
}

/// The report of a failed write names the register in four hexadecimal digits and the byte in two.
pub proof fn law_write_failed_names_register_and_byte(index: u16, value: u8)
    ensures
        ({
            let d = "0123456789abcdef"@;
            write_failed_text(index, value) == "reg_w 0x"@ + seq![
                d[index as int / 4096],
                d[index as int / 256 % 16],
                d[index as int / 16 % 16],
                d[index as int % 16],
            ] + "=0x"@ + seq![d[value as int / 16], d[value as int % 16]] + " failed: "@
        }),
{
    reveal_strlit("0123456789abcdef");
    reveal_with_fuel(hex, 4);
    let d = "0123456789abcdef"@;
    assert(hex_padded(index as nat, 4) =~= seq![
        d[index as int / 4096],
        d[index as int / 256 % 16],
        d[index as int / 16 % 16],
        d[index as int % 16],
    ]);
    assert(hex_padded(value as nat, 2) =~= seq![d[value as int / 16], d[value as int % 16]]);
}

/// The report of a handshake given up names the sensor register in hexadecimal, in two digits or
/// in as many more as it needs.
pub proof fn law_timed_out_names_register(reg: u16)
    ensures
        ({
            let d = "0123456789abcdef"@;
            let all = seq![
                d[reg as int / 4096],
                d[reg as int / 256 % 16],
                d[reg as int / 16 % 16],
                d[reg as int % 16],
            ];
            let digits = if reg < 256 {
                all.skip(2)
            } else if reg < 4096 {
                all.skip(1)
            } else {
                all
            };
            timed_out_text(reg) == "i2c_write reg 0x"@ + digits + " timed out"@
        }),
{
    reveal_strlit("0123456789abcdef");
    reveal_with_fuel(hex, 4);
    let d = "0123456789abcdef"@;
    let all = seq![
        d[reg as int / 4096],
        d[reg as int / 256 % 16],
        d[reg as int / 16 % 16],
        d[reg as int % 16],
    ];
    let digits = if reg < 256 {
        all.skip(2)
    } else if reg < 4096 {
        all.skip(1)
    } else {
        all
    };
    assert(hex_padded(reg as nat, 2) =~= digits);
}

/// The line on the endpoint names its setting, its address in two hexadecimal digits and its
/// bytes, and the line on the rate names the frames.
pub proof fn law_lines_name_their_numbers(c: Chosen, frames: u64)
    ensures
        ({
            let d = "0123456789abcdef"@;
            endpoint_text(c) == "using alt "@ + decimal(c.setting as nat) + ", ep 0x"@ + seq![
                d[c.address as int / 16],
                d[c.address as int % 16],
            ] + ", "@ + decimal(c.bytes as nat) + " bytes/packet"@
        }),
        rate_text(frames) == decimal(frames as nat) + " fps"@,
{
    reveal_strlit("0123456789abcdef");
    reveal_with_fuel(hex, 2);
    let d = "0123456789abcdef"@;
    assert(hex_padded(c.address as nat, 2) =~= seq![
        d[c.address as int / 16],
        d[c.address as int % 16],
    ]);
}

} // verus!
