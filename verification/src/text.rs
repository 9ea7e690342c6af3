//! Numbers as text: decimal, padded and hexadecimal.

use vstd::prelude::*;

verus! {

/// `String::push` of the standard library: the character is added at the end.
pub assume_specification[ String::push ](s: &mut String, c: char)
    ensures
        final(s)@ == old(s)@.push(c),
;

/// The character of a decimal digit.
pub open spec fn decimal_digit(d: int) -> char {
    (48 + d) as char
}

/// `n` in decimal, without leading zeros.
pub open spec fn decimal(n: nat) -> Seq<char>
    decreases n,
{
    if n < 10 {
        seq![decimal_digit(n as int)]
    } else {
        decimal(n / 10).push(decimal_digit((n % 10) as int))
    }
}

/// `i` in decimal, with a minus sign in front of a negative number.
pub open spec fn signed_decimal(i: int) -> Seq<char> {
    if i < 0 {
        seq!['-'] + decimal((-i) as nat)
    } else {
        decimal(i as nat)
    }
}

/// `n` copies of `c`.
pub open spec fn repeated(c: char, n: int) -> Seq<char> {
    Seq::new(
        if n > 0 {
            n as nat
        } else {
            0
        },
        |i: int| c,
    )
}

/// `s` with spaces behind it, up to `width` characters.
pub open spec fn left_aligned(s: Seq<char>, width: int) -> Seq<char> {
    s + repeated(' ', width - s.len())
}

/// `n` in decimal, with zeros in front of it, up to two characters.
pub open spec fn two_digits(n: nat) -> Seq<char> {
    repeated('0', 2 - decimal(n).len()) + decimal(n)
}

/// The character of a hexadecimal digit, in lower case.
pub open spec fn hex_digit(d: int) -> char {
    if d < 10 {
        (48 + d) as char
    } else {
        (87 + d) as char
    }
}

/// `bytes` in hexadecimal: two digits a byte, the high one first.
pub open spec fn hex(bytes: Seq<u8>) -> Seq<char>
    decreases bytes.len(),
{
    if bytes.len() == 0 {
        Seq::empty()
    } else {
        hex(bytes.drop_last()) + seq![
            hex_digit(bytes.last() as int / 16),
            hex_digit(bytes.last() as int % 16),
        ]
    }
}

/// Appends `n` in decimal and says how many characters that took.
pub fn push_decimal(out: &mut String, n: u64) -> (len: u64)
    ensures
        final(out)@ == old(out)@ + decimal(n as nat),
        len == decimal(n as nat).len(),
        len <= n / 10 + 1,
    decreases n,
{
    let mut len: u64 = 0;
    if n >= 10 {
        len = push_decimal(out, n / 10);
    }
    out.push((48 + (n % 10) as u8) as char);
    len + 1
}

/// Appends `i` in decimal.
pub fn push_signed_decimal(out: &mut String, i: i32)
    ensures
        final(out)@ == old(out)@ + signed_decimal(i as int),
{
    if i < 0 {
        out.push('-');
        let magnitude: u64 = (-(i as i64)) as u64;
        push_decimal(out, magnitude);
    } else {
        push_decimal(out, i as u64);
    }
}

/// Appends `n` in decimal, left-aligned in `width` characters.
pub fn push_left_aligned(out: &mut String, n: u64, width: u64)
    ensures
        final(out)@ == old(out)@ + left_aligned(decimal(n as nat), width as int),
{
    let mut len = push_decimal(out, n);
    let ghost digits = decimal(n as nat);
    while len < width
        invariant
            digits == decimal(n as nat),
            digits.len() <= len,
            len <= width || len == digits.len(),
            out@ == old(out)@ + digits + repeated(' ', len - digits.len()),
        decreases width - len,
    {
        out.push(' ');
        len = len + 1;
    }
}

/// Appends `n` in decimal, with a zero in front of a single digit.
pub fn push_two_digits(out: &mut String, n: u64)
    ensures
        final(out)@ == old(out)@ + two_digits(n as nat),
{
    if n < 10 {
        out.push('0');
    }
    push_decimal(out, n);
    assert(n >= 10 ==> decimal((n / 10) as nat).len() >= 1);
}

/// Appends `bytes` in hexadecimal.
pub fn push_hex(out: &mut String, bytes: &[u8])
    ensures
        final(out)@ == old(out)@ + hex(bytes@),
{
    let mut i: usize = 0;
    while i < bytes.len()
        invariant
            i <= bytes@.len(),
            out@ == old(out)@ + hex(bytes@.take(i as int)),
        decreases bytes@.len() - i,
    {
        let b = bytes[i];
        push_hex_digit(out, b / 16);
        push_hex_digit(out, b % 16);
        i = i + 1;
        assert(bytes@.take(i as int).drop_last() =~= bytes@.take(i - 1));
    }
    assert(bytes@.take(i as int) =~= bytes@);
}

fn push_hex_digit(out: &mut String, d: u8)
    requires
        d < 16,
    ensures
        final(out)@ == old(out)@.push(hex_digit(d as int)),
{
    if d < 10 {
        out.push((48 + d) as char);
    } else {
        out.push((87 + d) as char);
    }
}

/// `host` and `port` as one address, `host:port`.
pub open spec fn host_and_port(host: Seq<char>, port: nat) -> Seq<char> {
    host + seq![':'] + decimal(port)
}

/// Writes `host` and `port` as one address, `host:port`.
pub fn host_port(host: &str, port: u16) -> (address: String)
    ensures
        address@ == host_and_port(host@, port as nat),
{
    let mut address = host.to_string();
    address.push(':');
    push_decimal(&mut address, port as u64);
    address
}

/// `text` is the number `n` in decimal: digits without a zero too many in front, which read as `n`.
pub open spec fn is_decimal(text: Seq<char>, n: int) -> bool {
    &&& text.len() > 0
    &&& forall|i: int| 0 <= i < text.len() ==> '0' <= #[trigger] text[i] <= '9'
    &&& text.len() > 1 ==> text[0] != '0'
    &&& text.fold_left(0int, |value: int, c: char| 10 * value + (c as int - '0' as int)) == n
}

/// What is written in decimal reads back as the number.
pub proof fn law_decimal_reads_back(n: nat)
    ensures
        is_decimal(decimal(n), n as int),
        decimal(n).len() > 0,
        forall|i: int| 0 <= i < decimal(n).len() ==> '0' <= #[trigger] decimal(n)[i] <= '9',
        n > 0 ==> decimal(n)[0] != '0',
        n == 0 ==> decimal(n).len() == 1,
        decimal(n).fold_left(0int, |value: int, c: char| 10 * value + (c as int - '0' as int)) == n,
    decreases n,
{
    let read = |value: int, c: char| 10 * value + (c as int - '0' as int);
    let text = decimal(n);
    reveal_with_fuel(Seq::fold_left, 2);
    if n >= 10 {
        law_decimal_reads_back(n / 10);
        assert(text.drop_last() =~= decimal(n / 10));
    } else {
        assert(text.drop_last() =~= Seq::<char>::empty());
    }
}

/// There is no other way to write a number in decimal.
pub proof fn law_decimal_is_unique(text: Seq<char>, n: int)
    requires
        is_decimal(text, n),
    ensures
        n >= 0,
        text == decimal(n as nat),
    decreases text.len(),
{
    let read = |value: int, c: char| 10 * value + (c as int - '0' as int);
    let init = text.drop_last();
    let value = init.fold_left(0int, read);
    reveal_with_fuel(Seq::fold_left, 2);
    assert(n == 10 * value + (text.last() as int - '0' as int));
    if text.len() == 1 {
        assert(init =~= Seq::<char>::empty());
        assert(text =~= decimal(n as nat));
    } else {
        assert(init[0] == text[0]);
        law_decimal_is_unique(init, value);
        law_decimal_reads_back(value as nat);
        assert(value > 0) by {
            if value == 0 {
                assert(init[0] == '0');
            }
        }
        assert(text =~= decimal(n as nat));
    }
}

/// A negative number has a minus sign in front of its digits, and no other number has one.
pub proof fn law_signed_decimal_reads_back(i: int)
    ensures
        i >= 0 ==> is_decimal(signed_decimal(i), i),
        i < 0 ==> signed_decimal(i).len() > 0 && signed_decimal(i)[0] == '-' && is_decimal(
            signed_decimal(i).skip(1),
            -i,
        ),
{
    if i < 0 {
        law_decimal_reads_back((-i) as nat);
        assert(signed_decimal(i).skip(1) =~= decimal((-i) as nat));
    } else {
        law_decimal_reads_back(i as nat);
    }
}

/// `text` is the number `n` in decimal with spaces behind it, if need be, to make it `width` long.
pub open spec fn is_padded_decimal(text: Seq<char>, n: int, width: int) -> bool {
    exists|digits: int|
        0 < digits <= text.len() && #[trigger] is_decimal(text.take(digits), n) && (forall|i: int|
            digits <= i < text.len() ==> #[trigger] text[i] == ' ') && (text.len() == digits
            || text.len() == width) && text.len() >= width
}

/// A number that is left-aligned is followed by spaces only, and by no more than the width asks
/// for; one that is longer than the width is written in full.
pub proof fn law_left_aligned_is_padded(n: nat, width: int)
    ensures
        is_padded_decimal(left_aligned(decimal(n), width), n as int, width),
        decimal(n).is_prefix_of(left_aligned(decimal(n), width)),
        forall|i: int|
            decimal(n).len() <= i < left_aligned(decimal(n), width).len()
                ==> #[trigger] left_aligned(decimal(n), width)[i] == ' ',
        decimal(n).len() >= width ==> left_aligned(decimal(n), width).len() == decimal(n).len(),
        decimal(n).len() < width ==> left_aligned(decimal(n), width).len() == width,
{
    let digits = decimal(n).len() as int;
    law_decimal_reads_back(n);
    assert(left_aligned(decimal(n), width).take(digits) =~= decimal(n));
}

/// There is no other way to pad a number.
pub proof fn law_padding_is_unique(text: Seq<char>, n: int, width: int)
    requires
        is_padded_decimal(text, n, width),
    ensures
        n >= 0,
        text == left_aligned(decimal(n as nat), width),
{
    let digits = choose|digits: int|
        0 < digits <= text.len() && #[trigger] is_decimal(text.take(digits), n) && (forall|i: int|
            digits <= i < text.len() ==> #[trigger] text[i] == ' ') && (text.len() == digits
            || text.len() == width) && text.len() >= width;
    law_decimal_is_unique(text.take(digits), n);
    assert(text =~= left_aligned(text.take(digits), width));
}

/// A number below a hundred takes two digits.
pub proof fn law_two_digits_read_back(n: nat)
    requires
        n < 100,
    ensures
        two_digits(n).len() == 2,
        '0' <= two_digits(n)[0] <= '9',
        '0' <= two_digits(n)[1] <= '9',
        10 * (two_digits(n)[0] as int - '0' as int) + (two_digits(n)[1] as int - '0' as int) == n,
{
    reveal_with_fuel(decimal, 2);
}

/// Each byte takes two hexadecimal digits in lower case, the one for the high half first.
pub proof fn law_hex_digits_of_each_byte(bytes: Seq<u8>, i: int)
    requires
        0 <= i < bytes.len(),
    ensures
        hex(bytes).len() == 2 * bytes.len(),
        hex(bytes)[2 * i] as int == (if bytes[i] / 16 < 10 {
            '0' as int + bytes[i] / 16
        } else {
            'a' as int + bytes[i] / 16 - 10
        }),
        hex(bytes)[2 * i + 1] as int == (if bytes[i] % 16 < 10 {
            '0' as int + bytes[i] % 16
        } else {
            'a' as int + bytes[i] % 16 - 10
        }),
    decreases bytes.len(),
{
    lemma_hex_len(bytes);
    lemma_hex_len(bytes.drop_last());
    if i < bytes.len() - 1 {
        law_hex_digits_of_each_byte(bytes.drop_last(), i);
    }
}

proof fn lemma_hex_len(bytes: Seq<u8>)
    ensures
        hex(bytes).len() == 2 * bytes.len(),
    decreases bytes.len(),
{
    if bytes.len() > 0 {
        lemma_hex_len(bytes.drop_last());
    }
}

/// An address is the host as it was given, a colon, and the port in decimal.
pub proof fn law_address_is_host_and_port(host: &str, port: u16, address: String)
    requires
        call_ensures(host_port, (host, port), address),
    ensures
        address@.len() > host@.len(),
        address@.take(host@.len() as int) == host@,
        address@[host@.len() as int] == ':',
        is_decimal(address@.skip(1 + host@.len() as int), port as int),
{
    law_decimal_reads_back(port as nat);
    assert(address@.take(host@.len() as int) =~= host@);
    assert(address@.skip(1 + host@.len() as int) =~= decimal(port as nat));
}

} // verus!
