//! Bytes as text, for the log.

use vstd::prelude::*;

verus! {

/// The lower-case hexadecimal digit of a number below 16.
pub open spec fn hex_digit(n: u8) -> char {
    if n < 10 {
        (0x30 + n) as char
    } else {
        (0x57 + n) as char
    }
}

/// Two hexadecimal digits for each byte, high digit first, nothing between
/// the bytes.
pub open spec fn spec_hex2(s: Seq<u8>) -> Seq<char>
    decreases s.len(),
{
    if s.len() == 0 {
        Seq::empty()
    } else {
        spec_hex2(s.drop_last()) + seq![hex_digit(s.last() / 16), hex_digit(s.last() % 16)]
    }
}

/// Calls `String::push`: the string afterwards is the string before with
/// `c` at its end.
#[verifier::external_body]
fn push_char(s: &mut String, c: char)
    ensures
        final(s)@ == old(s)@.push(c),
{
    s.push(c)
}

fn digit(n: u8) -> (c: char)
    requires
        n < 16,
    ensures
        c == hex_digit(n),
{
    if n < 10 {
        (0x30 + n) as char
    } else {
        (0x57 + n) as char
    }
}

/// The bytes of `buf` in lower-case hexadecimal.
pub fn hex2(buf: &[u8]) -> (out: String)
    ensures
        out@ == spec_hex2(buf@),
        out@.len() == 2 * buf@.len(),
{
    let mut out = String::new();
    let mut i: usize = 0;
    while i < buf.len()
        invariant
            i <= buf@.len(),
            out@ == spec_hex2(buf@.subrange(0, i as int)),
            out@.len() == 2 * i,
        decreases buf@.len() - i,
    {
        let b = buf[i];
        push_char(&mut out, digit(b / 16));
        push_char(&mut out, digit(b % 16));
        proof {
            let upto = buf@.subrange(0, i + 1);
            assert(upto.drop_last() =~= buf@.subrange(0, i as int));
            assert(upto.last() == b);
            assert(out@ =~= spec_hex2(upto));
        }
        i += 1;
    }
    assert(buf@.subrange(0, buf@.len() as int) =~= buf@);
    out
}

} // verus!
