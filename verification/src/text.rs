//! Text: checked UTF-8, and upper-case hexadecimal.
use vstd::prelude::*;
use vstd::string::*;
use vstd::utf8::{decode_utf8, valid_utf8};

verus! {

/// Reads bytes as UTF-8 text with `core::str::from_utf8`.
///
/// Trusted: the call succeeds exactly on valid UTF-8, and the text is then
/// what the bytes encode.
#[verifier::external_body]
pub(crate) fn str_from_utf8<'a>(b: &'a [u8]) -> (r: Option<&'a str>)
    ensures
        r is Some <==> valid_utf8(b@),
        r matches Some(s) ==> s@ == decode_utf8(b@),
{
    core::str::from_utf8(b).ok()
}

/// The sixteen digits of upper-case hexadecimal.
pub open spec fn hex_digit(n: int) -> char {
    "0123456789ABCDEF"@[n]
}

/// Upper-case hexadecimal: two digits for each byte, the high half first.
pub open spec fn spec_hex_upper(b: Seq<u8>) -> Seq<char> {
    Seq::new(
        2 * b.len(),
        |k: int|
            hex_digit(
                if k % 2 == 0 {
                    b[k / 2] as int / 16
                } else {
                    b[k / 2] as int % 16
                },
            ),
    )
}

/// Writes bytes in upper-case hexadecimal with
/// `data_encoding::HEXUPPER.encode`.
///
/// Trusted: the text has two digits for each byte, high half first, out of
/// `0123456789ABCDEF`.
#[verifier::external_body]
pub(crate) fn hex_upper(b: &[u8]) -> (r: String)
    ensures
        r@ == spec_hex_upper(b@),
{
    data_encoding::HEXUPPER.encode(b)
}

/// The sixteen digits of lower-case hexadecimal.
pub open spec fn hex_lower_digit(n: int) -> char {
    "0123456789abcdef"@[n]
}

/// The two lower-case hexadecimal digits of a byte, the high half first.
pub open spec fn spec_hex_lower_byte(b: u8) -> Seq<char> {
    seq![hex_lower_digit(b as int / 16), hex_lower_digit(b as int % 16)]
}

/// Bytes in lower-case hexadecimal, two digits each, with `:` between them.
pub open spec fn spec_colon_hex(b: Seq<u8>) -> Seq<char>
    decreases b.len(),
{
    if b.len() == 0 {
        Seq::empty()
    } else if b.len() == 1 {
        spec_hex_lower_byte(b[0])
    } else {
        spec_colon_hex(b.drop_last()) + seq![':'] + spec_hex_lower_byte(b.last())
    }
}

/// One lower-case hexadecimal digit.
fn hex_lower(n: u8) -> (r: &'static str)
    requires
        n < 16,
    ensures
        r@ == seq![hex_lower_digit(n as int)],
{
    proof {
        reveal_strlit("0123456789abcdef");
        reveal_strlit("0");
        reveal_strlit("1");
        reveal_strlit("2");
        reveal_strlit("3");
        reveal_strlit("4");
        reveal_strlit("5");
        reveal_strlit("6");
        reveal_strlit("7");
        reveal_strlit("8");
        reveal_strlit("9");
        reveal_strlit("a");
        reveal_strlit("b");
        reveal_strlit("c");
        reveal_strlit("d");
        reveal_strlit("e");
        reveal_strlit("f");
    }
    let r = if n == 0 {
        "0"
    } else if n == 1 {
        "1"
    } else if n == 2 {
        "2"
    } else if n == 3 {
        "3"
    } else if n == 4 {
        "4"
    } else if n == 5 {
        "5"
    } else if n == 6 {
        "6"
    } else if n == 7 {
        "7"
    } else if n == 8 {
        "8"
    } else if n == 9 {
        "9"
    } else if n == 10 {
        "a"
    } else if n == 11 {
        "b"
    } else if n == 12 {
        "c"
    } else if n == 13 {
        "d"
    } else if n == 14 {
        "e"
    } else {
        "f"
    };
    assert(r@ =~= seq![hex_lower_digit(n as int)]);
    r
}

/// Writes bytes in lower-case hexadecimal with `:` between them, as serial
/// numbers are shown.
pub fn colon_hex(b: &[u8]) -> (r: String)
    ensures
        r@ == spec_colon_hex(b@),
{
    let mut out = String::new();
    let mut k: usize = 0;
    proof {
        reveal_strlit(":");
        assert(b@.take(0) =~= Seq::<u8>::empty());
    }
    while k < b.len()
        invariant
            k <= b.len(),
            out@ == spec_colon_hex(b@.take(k as int)),
            ":"@ == seq![':'],
        decreases b.len() - k,
    {
        proof {
            assert(b@.take(k + 1).drop_last() =~= b@.take(k as int));
            assert(b@.take(k + 1).last() == b@[k as int]);
            assert(b@.take(k + 1).len() == k + 1);
            if k == 0 {
                assert(b@.take(1)[0] == b@[0]);
            }
        }
        let ghost before = out@;
        if k > 0 {
            out.append(":");
        }
        out.append(hex_lower(b[k] / 16));
        out.append(hex_lower(b[k] % 16));
        proof {
            let hb = spec_hex_lower_byte(b@[k as int]);
            assert(seq![hex_lower_digit(b@[k as int] as int / 16)] + seq![
                hex_lower_digit(b@[k as int] as int % 16),
            ] =~= hb);
            if k > 0 {
                assert(out@ =~= before + seq![':'] + hb);
            } else {
                assert(out@ =~= hb);
            }
        }
        k += 1;
    }
    proof {
        assert(b@.take(b.len() as int) =~= b@);
    }
    out
}

/// A number in decimal.
pub open spec fn spec_decimal(n: nat) -> Seq<char>
    decreases n,
{
    if n < 10 {
        seq![hex_lower_digit(n as int)]
    } else {
        spec_decimal(n / 10) + seq![hex_lower_digit((n % 10) as int)]
    }
}

/// A number in lower-case hexadecimal.
pub open spec fn spec_hex_lower(n: nat) -> Seq<char>
    decreases n,
{
    if n < 16 {
        seq![hex_lower_digit(n as int)]
    } else {
        spec_hex_lower(n / 16) + seq![hex_lower_digit((n % 16) as int)]
    }
}

/// Writes a number in decimal.
pub fn decimal(n: u32) -> (r: String)
    ensures
        r@ == spec_decimal(n as nat),
    decreases n,
{
    if n < 10 {
        String::from_str(hex_lower(n as u8))
    } else {
        let mut s = decimal(n / 10);
        s.append(hex_lower((n % 10) as u8));
        s
    }
}

/// Writes a number in lower-case hexadecimal.
pub fn hex_lower_number(n: u32) -> (r: String)
    ensures
        r@ == spec_hex_lower(n as nat),
    decreases n,
{
    if n < 16 {
        String::from_str(hex_lower(n as u8))
    } else {
        let mut s = hex_lower_number(n / 16);
        s.append(hex_lower((n % 16) as u8));
        s
    }
}

/// How a number without a name is shown: the name of its type, and in
/// brackets the number in decimal and in hexadecimal.
pub open spec fn spec_unnamed(kind: Seq<char>, n: nat) -> Seq<char> {
    kind + "("@ + spec_decimal(n) + " / 0x"@ + spec_hex_lower(n) + ")"@
}

/// Writes a number without a name.
pub fn unnamed(kind: &str, n: u32) -> (r: String)
    ensures
        r@ == spec_unnamed(kind@, n as nat),
{
    let mut s = String::from_str(kind);
    s.append("(");
    s.append(decimal(n).as_str());
    s.append(" / 0x");
    s.append(hex_lower_number(n).as_str());
    s.append(")");
    s
}

} // verus!
