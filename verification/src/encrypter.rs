//! MD5 digests of text, written in hexadecimal.

use crate::text::digit_char;
use md5::{Digest, Md5};
use vstd::prelude::*;
use vstd::slice::slice_subrange;
use vstd::utf8::encode_utf8;

verus! {

/// The MD5 digest of a sequence of bytes, as the `md-5` crate computes it.
pub uninterp spec fn md5_digest(data: Seq<u8>) -> Seq<u8>;

/// `Md5::digest` of the `md-5` crate: the digest of all of `data`. It has
/// 16 bytes and depends on `data` alone. Verus takes this on trust.
#[verifier::external_body]
fn digest(data: &[u8]) -> (hash: Vec<u8>)
    ensures
        hash@ == md5_digest(data@),
        hash@.len() == 16,
{
    Md5::digest(data).to_vec()
}

/// The character that stands for the hexadecimal digit `d`, with capital
/// letters if `upper`.
pub open spec fn hex_char(d: int, upper: bool) -> char {
    if d < 10 {
        digit_char(d)
    } else if upper {
        seq!['A', 'B', 'C', 'D', 'E', 'F'][d - 10]
    } else {
        seq!['a', 'b', 'c', 'd', 'e', 'f'][d - 10]
    }
}

/// A byte in hexadecimal, without a leading zero: one digit for a byte
/// below 16, two digits for the others.
pub open spec fn byte_hex(b: u8, upper: bool) -> Seq<char> {
    if b < 16 {
        seq![hex_char(b as int, upper)]
    } else {
        seq![hex_char(b as int / 16, upper), hex_char(b as int % 16, upper)]
    }
}

/// The bytes in hexadecimal, one after the other.
pub open spec fn hex_text(bytes: Seq<u8>, upper: bool) -> Seq<char>
    decreases bytes.len(),
{
    if bytes.len() == 0 {
        Seq::empty()
    } else {
        hex_text(bytes.drop_last(), upper) + byte_hex(bytes.last(), upper)
    }
}

/// The one-character string of a hexadecimal digit.
fn hex_str(d: u8, upper: bool) -> (s: &'static str)
    requires
        d < 16,
    ensures
        s@ == seq![hex_char(d as int, upper)],
{
    proof {
        reveal_strlit("0");
        reveal_strlit("1");
        reveal_strlit("2");
        reveal_strlit("3");
        reveal_strlit("4");
        reveal_strlit("5");
        reveal_strlit("6");
        reveal_strlit("7");
        reveal_strlit("8");
        reveal_strlit("9");
        reveal_strlit("A");
        reveal_strlit("B");
        reveal_strlit("C");
        reveal_strlit("D");
        reveal_strlit("E");
        reveal_strlit("F");
        reveal_strlit("a");
        reveal_strlit("b");
        reveal_strlit("c");
        reveal_strlit("d");
        reveal_strlit("e");
        reveal_strlit("f");
    }
    let s = match d {
        0 => "0",
        1 => "1",
        2 => "2",
        3 => "3",
        4 => "4",
        5 => "5",
        6 => "6",
        7 => "7",
        8 => "8",
        9 => "9",
        10 => if upper {
            "A"
        } else {
            "a"
        },
        11 => if upper {
            "B"
        } else {
            "b"
        },
        12 => if upper {
            "C"
        } else {
            "c"
        },
        13 => if upper {
            "D"
        } else {
            "d"
        },
        14 => if upper {
            "E"
        } else {
            "e"
        },
        _ => if upper {
            "F"
        } else {
            "f"
        },
    };
    assert(s@ =~= seq![hex_char(d as int, upper)]);
    s
}

/// The MD5 tool, as the command line configures it.
#[derive(Clone, Debug, PartialEq, Eq)]
pub struct Encrypter {
    /// The text to digest.
    pub ostr: String,
    /// Whether the hexadecimal letters are capitals.
    pub upper: bool,
    /// Whether only the middle eight bytes of the digest are given.
    pub is16: bool,
}

impl Encrypter {
    /// The bytes of the digest that are written out: bytes 4 to 11 of the
    /// digest of the text's UTF-8 encoding where the short form is asked
    /// for, the whole digest otherwise.
    pub open spec fn digest_part(self) -> Seq<u8> {
        let hash = md5_digest(encode_utf8(self.ostr@));
        if self.is16 {
            hash.subrange(4, 12)
        } else {
            hash
        }
    }

    /// The MD5 digest of the text in hexadecimal, or the middle eight
    /// bytes of it, each byte without a leading zero.
    pub fn md5(&self) -> (hex: String)
        ensures
            hex@ == hex_text(self.digest_part(), self.upper),
            md5_digest(encode_utf8(self.ostr@)).len() == 16,
    {
        let result = digest(self.ostr.as_str().as_bytes());
        if self.is16 {
            self.print_hex(slice_subrange(result.as_slice(), 4, 12))
        } else {
            self.print_hex(result.as_slice())
        }
    }

    /// The bytes in hexadecimal, one after the other, each without a
    /// leading zero, with capital letters if the tool is set to them.
    pub fn print_hex(&self, rs: &[u8]) -> (hex: String)
        ensures
            hex@ == hex_text(rs@, self.upper),
    {
        let mut hex = String::new();
        let mut i: usize = 0;
        while i < rs.len()
            invariant
                i <= rs@.len(),
                hex@ == hex_text(rs@.take(i as int), self.upper),
            decreases rs@.len() - i,
        {
            let x: u8 = rs[i];
            if x >= 16 {
                hex.append(hex_str(x / 16, self.upper));
                hex.append(hex_str(x % 16, self.upper));
            } else {
                hex.append(hex_str(x, self.upper));
            }
            proof {
                let done = rs@.take(i + 1);
                assert(done.drop_last() =~= rs@.take(i as int));
                assert(done.last() == x);
                assert(hex@ =~= hex_text(done, self.upper));
            }
            i += 1;
        }
        assert(rs@.take(i as int) =~= rs@);
        hex
    }
}

} // verus!
