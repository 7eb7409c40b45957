//! Text encodings used by the canonical hash input and by the rendered digest:
//! decimal numbers, lowercase hexadecimal, and UTF-8 bytes of text.

use vstd::prelude::*;
use vstd::string::StringExecFns;
use vstd::utf8::encode_utf8;
use vstd::utf8::is_ascii_chars;
use vstd::utf8::is_ascii_chars_encode_utf8;

verus! {

/// The character that stands for a decimal digit `d < 10`.
pub open spec fn digit_char(d: nat) -> char {
    if d == 0 {
        '0'
    } else if d == 1 {
        '1'
    } else if d == 2 {
        '2'
    } else if d == 3 {
        '3'
    } else if d == 4 {
        '4'
    } else if d == 5 {
        '5'
    } else if d == 6 {
        '6'
    } else if d == 7 {
        '7'
    } else if d == 8 {
        '8'
    } else {
        '9'
    }
}

/// The decimal rendering of `n`: no sign, no leading zeros, `"0"` for zero.
pub open spec fn decimal(n: nat) -> Seq<char>
    decreases n,
{
    if n < 10 {
        seq![digit_char(n)]
    } else {
        decimal(n / 10).push(digit_char(n % 10))
    }
}

/// The decimal rendering of `n`, but with no digit at all for zero: what
/// stands before the last digit in the rendering of `10 * n + d`.
pub open spec fn leading_digits(n: nat) -> Seq<char> {
    if n == 0 {
        Seq::empty()
    } else {
        decimal(n)
    }
}

/// Ten to the power `k`.
pub open spec fn pow10(k: nat) -> nat
    decreases k,
{
    if k == 0 {
        1
    } else {
        10 * pow10((k - 1) as nat)
    }
}

/// A number below `10^k` has at most `k` decimal digits, and every number has one.
pub proof fn lemma_decimal_len(n: nat, k: nat)
    requires
        k >= 1,
        n < pow10(k),
    ensures
        1 <= decimal(n).len() <= k,
    decreases n,
{
    if n >= 10 {
        reveal_with_fuel(pow10, 2);
        assert(k >= 2);
        lemma_decimal_len(n / 10, (k - 1) as nat);
    }
}

/// A 64-bit number has between one and twenty decimal digits.
pub proof fn lemma_decimal_len_u64(n: u64)
    ensures
        1 <= decimal(n as nat).len() <= 20,
{
    reveal_with_fuel(pow10, 21);
    lemma_decimal_len(n as nat, 20);
}

/// Every character of a decimal rendering is one of `'0'..='9'`.
pub proof fn lemma_decimal_digits(n: nat)
    ensures
        forall|i: int| 0 <= i < decimal(n).len() ==> '0' <= #[trigger] decimal(n)[i] <= '9',
        is_ascii_chars(decimal(n)),
    decreases n,
{
    if n >= 10 {
        lemma_decimal_digits(n / 10);
    }
}

/// UTF-8 encoding distributes over concatenation of text.
pub proof fn lemma_utf8_concat(a: Seq<char>, b: Seq<char>)
    ensures
        encode_utf8(a + b) == encode_utf8(a) + encode_utf8(b),
    decreases a.len(),
{
    if a.len() == 0 {
        assert(a + b =~= b);
        assert(encode_utf8(a) + encode_utf8(b) =~= encode_utf8(b));
    } else {
        lemma_utf8_concat(a.drop_first(), b);
        assert((a + b).drop_first() =~= a.drop_first() + b);
        assert((a + b)[0] == a[0]);
        assert(encode_utf8(a + b) =~= encode_utf8(a) + encode_utf8(b));
    }
}

/// The ASCII code of the decimal digit `d`.
fn digit_byte(d: u8) -> (b: u8)
    requires
        d < 10,
    ensures
        b == digit_char(d as nat) as u8,
{
    48u8 + d
}

/// Appends the decimal rendering of `n`, as UTF-8 bytes, to `out`.
pub fn push_decimal(out: &mut Vec<u8>, n: u64)
    ensures
        final(out)@ == old(out)@ + encode_utf8(decimal(n as nat)),
{
    let mut digits: [u8; 20] = [0u8; 20];
    let mut pos: usize = 20;
    let mut rest: u64 = n;
    let ghost mut tail: Seq<char> = Seq::empty();
    assert(decimal(n as nat) =~= decimal(rest as nat) + tail);
    loop
        invariant_except_break
            decimal(n as nat) == decimal(rest as nat) + tail,
        invariant
            pos <= 20,
            tail.len() == 20 - pos,
            forall|j: int| 0 <= j < tail.len() ==> '0' <= #[trigger] tail[j] <= '9',
            forall|j: int| 0 <= j < tail.len() ==> digits@[pos + j] == #[trigger] tail[j] as u8,
        ensures
            decimal(n as nat) == tail,
        decreases rest,
    {
        proof {
            lemma_decimal_len_u64(n);
            lemma_decimal_len_u64(rest);
        }
        let low: u8 = (rest % 10) as u8;
        let ghost low_char: char = digit_char(low as nat);
        pos = pos - 1;
        digits[pos] = digit_byte(low);
        rest = rest / 10;
        proof {
            let before: Seq<char> = tail;
            tail = seq![low_char] + before;
            assert(forall|j: int| 1 <= j < tail.len() ==> tail[j] == before[j - 1]);
            assert(decimal((rest * 10 + low) as nat) =~= leading_digits(rest as nat).push(
                low_char,
            ));
            assert(decimal(n as nat) =~= leading_digits(rest as nat) + tail);
        }
        if rest == 0 {
            assert(decimal(n as nat) =~= tail);
            break ;
        }
    }
    let ghost start: Seq<u8> = out@;
    proof {
        is_ascii_chars_encode_utf8(tail);
    }
    let mut at: usize = pos;
    while at < 20
        invariant
            pos <= at <= 20,
            tail.len() == 20 - pos,
            encode_utf8(tail).len() == tail.len(),
            forall|j: int| 0 <= j < tail.len() ==> digits@[pos + j] == #[trigger] encode_utf8(tail)[j],
            out@ == start + encode_utf8(tail).subrange(0, at - pos),
        decreases 20 - at,
    {
        out.push(digits[at]);
        assert(out@ =~= start + encode_utf8(tail).subrange(0, at + 1 - pos));
        at = at + 1;
    }
    assert(encode_utf8(tail).subrange(0, 20 - pos) =~= encode_utf8(tail));
}

/// Counts the digits of the decimal rendering of `n`.
pub fn decimal_len(n: u64) -> (len: u64)
    ensures
        len == decimal(n as nat).len(),
        len == encode_utf8(decimal(n as nat)).len(),
        1 <= len <= 20,
{
    let mut len: u64 = 1;
    let mut rest: u64 = n / 10;
    proof {
        lemma_decimal_len_u64(n);
        lemma_decimal_digits(n as nat);
        is_ascii_chars_encode_utf8(decimal(n as nat));
    }
    while rest > 0
        invariant
            decimal(n as nat).len() == len + leading_digits(rest as nat).len(),
            decimal(n as nat).len() <= 20,
            len >= 1,
        decreases rest,
    {
        len = len + 1;
        rest = rest / 10;
    }
    len
}

/// The character that stands for a hexadecimal digit `v < 16`, in lower case.
pub open spec fn hex_char(v: nat) -> char {
    if v < 10 {
        digit_char(v)
    } else if v == 10 {
        'a'
    } else if v == 11 {
        'b'
    } else if v == 12 {
        'c'
    } else if v == 13 {
        'd'
    } else if v == 14 {
        'e'
    } else {
        'f'
    }
}

/// The lowercase hexadecimal rendering of `bytes`: two characters for each
/// byte, the high half first.
pub open spec fn hex(bytes: Seq<u8>) -> Seq<char> {
    Seq::new(
        2 * bytes.len(),
        |i: int|
            if i % 2 == 0 {
                hex_char((bytes[i / 2] / 16) as nat)
            } else {
                hex_char((bytes[i / 2] % 16) as nat)
            },
    )
}

/// `c` is a decimal digit or one of the letters `a` to `f`.
pub open spec fn is_hex_char(c: char) -> bool {
    ('0' <= c <= '9') || ('a' <= c <= 'f')
}

/// A hexadecimal rendering has two characters for each byte, each of them a
/// digit or a lower-case letter from `a` to `f`.
pub proof fn lemma_hex_shape(bytes: Seq<u8>)
    ensures
        hex(bytes).len() == 2 * bytes.len(),
        forall|i: int| 0 <= i < hex(bytes).len() ==> is_hex_char(#[trigger] hex(bytes)[i]),
{
}

/// The one-character text of the hexadecimal digit `v`.
fn hex_digit_text(v: u8) -> (text: &'static str)
    requires
        v < 16,
    ensures
        text@ == seq![hex_char(v as nat)],
{
    proof {
        reveal_strlit("0");
        reveal_strlit("1");
        reveal_strlit("2");
        reveal_strlit("3");
        reveal_strlit("4");
        reveal_strlit("5");
        reveal_strlit("6");
        reveal_strlit("7");
        reveal_strlit("8");
        reveal_strlit("9");
        reveal_strlit("a");
        reveal_strlit("b");
        reveal_strlit("c");
        reveal_strlit("d");
        reveal_strlit("e");
        reveal_strlit("f");
    }
    let text: &'static str = if v == 0 {
        "0"
    } else if v == 1 {
        "1"
    } else if v == 2 {
        "2"
    } else if v == 3 {
        "3"
    } else if v == 4 {
        "4"
    } else if v == 5 {
        "5"
    } else if v == 6 {
        "6"
    } else if v == 7 {
        "7"
    } else if v == 8 {
        "8"
    } else if v == 9 {
        "9"
    } else if v == 10 {
        "a"
    } else if v == 11 {
        "b"
    } else if v == 12 {
        "c"
    } else if v == 13 {
        "d"
    } else if v == 14 {
        "e"
    } else {
        "f"
    };
    assert(text@ =~= seq![hex_char(v as nat)]);
    text
}

/// Renders `bytes` as lowercase hexadecimal text.
pub fn to_hex(bytes: &[u8]) -> (text: String)
    ensures
        text@ == hex(bytes@),
{
    let mut text: String = String::new();
    let mut i: usize = 0;
    while i < bytes.len()
        invariant
            i <= bytes@.len(),
            text@.len() == 2 * i,
            forall|j: int| 0 <= j < 2 * i ==> #[trigger] text@[j] == hex(bytes@)[j],
        decreases bytes@.len() - i,
    {
        let byte: u8 = bytes[i];
        let ghost before: Seq<char> = text@;
        text.append(hex_digit_text(byte / 16));
        text.append(hex_digit_text(byte % 16));
        assert(text@ =~= before.push(hex_char((byte / 16) as nat)).push(
            hex_char((byte % 16) as nat),
        ));
        i = i + 1;
    }
    assert(text@ =~= hex(bytes@));
    text
}

} // verus!
