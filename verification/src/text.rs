//! Text helpers: decimal rendering of integers, string equality over views,
//! and the two places where the machine leans on `std`'s string routines.
use vstd::prelude::*;

verus! {

use vstd::string::StringSliceAdditionalSpecFns;

/// The character of a single decimal digit.
pub open spec fn digit_char(d: int) -> char
    recommends
        0 <= d < 10,
{
    ((48 + d) as u8) as char
}

/// The decimal digits of a natural number, most significant first.
pub open spec fn dec_str(n: nat) -> Seq<char>
    decreases n,
{
    if n < 10 {
        seq![digit_char(n as int)]
    } else {
        dec_str(n / 10).push(digit_char((n % 10) as int))
    }
}

/// The decimal text of an integer: a minus sign and the digits of its
/// magnitude when negative, the digits alone otherwise.
pub open spec fn int_str(i: int) -> Seq<char> {
    if i < 0 {
        seq!['-'] + dec_str((-i) as nat)
    } else {
        dec_str(i as nat)
    }
}

/// Relies on `String::push`: it appends exactly the given character.
#[verifier::external_body]
pub fn push_char(s: &mut String, c: char)
    ensures
        final(s)@ == old(s)@.push(c),
{
    s.push(c);
}

/// Relies on `String::from_utf8`: it accepts exactly the valid UTF-8 byte
/// sequences and returns the string whose characters those bytes encode.
#[verifier::external_body]
pub fn utf8_to_string(bytes: Vec<u8>) -> (r: Option<String>)
    ensures
        r is Some <==> vstd::utf8::valid_utf8(bytes@),
        r is Some ==> r->Some_0@ == vstd::utf8::decode_utf8(bytes@),
{
    match String::from_utf8(bytes) {
        Ok(s) => Some(s),
        Err(_) => None,
    }
}

/// An owned copy of a string slice, for error details.
pub fn msg(s: &str) -> (r: String)
    ensures
        r@ == s@,
{
    String::from_str(s)
}

/// Appends the decimal digits of `n`.
fn push_dec(s: &mut String, n: u64)
    ensures
        final(s)@ == old(s)@ + dec_str(n as nat),
    decreases n,
{
    let d: u64 = n % 10;
    if n >= 10 {
        proof {
            assert(n / 10 < n) by (nonlinear_arith)
                requires
                    n >= 10,
            ;
        }
        push_dec(s, n / 10);
    }
    push_char(s, (48 + (d as u8)) as char);
    proof {
        if n >= 10 {
            assert(final(s)@ =~= old(s)@ + dec_str(n as nat));
        } else {
            assert(final(s)@ =~= old(s)@ + dec_str(n as nat));
        }
    }
}

/// The decimal text of an unsigned 64-bit number.
pub fn nat_to_string(n: u64) -> (s: String)
    ensures
        s@ == dec_str(n as nat),
{
    let mut s = String::new();
    push_dec(&mut s, n);
    proof {
        assert(s@ =~= dec_str(n as nat));
    }
    s
}

/// The decimal text of a signed 64-bit number.
pub fn int_to_string(v: i64) -> (s: String)
    ensures
        s@ == int_str(v as int),
{
    let mut s = String::new();
    if v < 0 {
        push_char(&mut s, '-');
        let m: u64 = if v == i64::MIN {
            0x8000_0000_0000_0000u64
        } else {
            (-v) as u64
        };
        push_dec(&mut s, m);
        proof {
            assert(s@ =~= int_str(v as int));
        }
    } else {
        push_dec(&mut s, v as u64);
        proof {
            assert(s@ =~= int_str(v as int));
        }
    }
    s
}

/// The decimal text of a `usize`.
pub fn usize_to_string(u: usize) -> (s: String)
    ensures
        s@ == dec_str(u as nat),
{
    nat_to_string(u as u64)
}

/// Whether two string slices hold the same characters.
pub fn str_eq(a: &str, b: &str) -> (r: bool)
    ensures
        r == (a@ == b@),
{
    let ab = a.as_bytes();
    let bb = b.as_bytes();
    if ab.len() != bb.len() {
        proof {
            if a@ == b@ {
                assert(a.spec_bytes() == b.spec_bytes());
            }
        }
        return false;
    }
    let n = ab.len();
    let mut i: usize = 0;
    while i < n
        invariant
            0 <= i <= n,
            n == ab@.len(),
            n == bb@.len(),
            ab@ == a.spec_bytes(),
            bb@ == b.spec_bytes(),
            forall|j: int| 0 <= j < i ==> ab@[j] == bb@[j],
        decreases n - i,
    {
        if ab[i] != bb[i] {
            proof {
                if a@ == b@ {
                    assert(a.spec_bytes() == b.spec_bytes());
                }
            }
            return false;
        }
        i = i + 1;
    }
    proof {
        assert(a.spec_bytes() =~= b.spec_bytes());
        vstd::utf8::encode_utf8_decode_utf8(a@);
        vstd::utf8::encode_utf8_decode_utf8(b@);
    }
    true
}

/// Whether a `String` holds the same characters as a string slice.
pub fn string_eq_str(a: &String, b: &str) -> (r: bool)
    ensures
        r == (a@ == b@),
{
    str_eq(a.as_str(), b)
}

} // verus!
