//! Function selectors: a canonical signature string is hashed and the first
//! four digest bytes, hex-encoded, become the dispatch key. The digest
//! itself comes from an outside hash; everything around it — truncation and
//! hex encoding — is verified.

use vstd::prelude::*;

verus! {

use vstd::string::StringExecFns;

/// The 32-byte digest that the outside hash assigns to a string; a function
/// of the string's characters alone.
pub uninterp spec fn keccak_of(s: Seq<char>) -> Seq<u8>;

/// Relies on keccak_hash::keccak: the Keccak-256 digest of the argument's
/// bytes, 32 bytes long and determined by the argument alone.
#[verifier::external_body]
fn keccak_digest(s: &str) -> (r: Vec<u8>)
    ensures
        r@ == keccak_of(s@),
        r@.len() == 32,
{
    keccak_hash::keccak(s.as_bytes()).as_bytes().to_vec()
}

/// The lower-case hexadecimal digit of a value below sixteen.
pub open spec fn hex_digit(n: nat) -> char {
    if n == 0 {
        '0'
    } else if n == 1 {
        '1'
    } else if n == 2 {
        '2'
    } else if n == 3 {
        '3'
    } else if n == 4 {
        '4'
    } else if n == 5 {
        '5'
    } else if n == 6 {
        '6'
    } else if n == 7 {
        '7'
    } else if n == 8 {
        '8'
    } else if n == 9 {
        '9'
    } else if n == 10 {
        'a'
    } else if n == 11 {
        'b'
    } else if n == 12 {
        'c'
    } else if n == 13 {
        'd'
    } else if n == 14 {
        'e'
    } else {
        'f'
    }
}

/// The selector of a canonical signature string: the first four bytes of
/// its digest, hex-encoded with lower-case digits, high nibble first.
///
/// Selectors are deterministic but not assumed collision-free: nothing
/// here requires distinct signatures to map to distinct selectors, and a
/// contract filing two colliding signatures keeps only the later one
/// reachable.
pub open spec fn selector_of(s: Seq<char>) -> Seq<char> {
    seq![
        hex_digit(keccak_of(s)[0] as nat / 16),
        hex_digit(keccak_of(s)[0] as nat % 16),
        hex_digit(keccak_of(s)[1] as nat / 16),
        hex_digit(keccak_of(s)[1] as nat % 16),
        hex_digit(keccak_of(s)[2] as nat / 16),
        hex_digit(keccak_of(s)[2] as nat % 16),
        hex_digit(keccak_of(s)[3] as nat / 16),
        hex_digit(keccak_of(s)[3] as nat % 16),
    ]
}

/// Append the digit of a value below sixteen to a string.
fn push_hex_digit(s: &mut String, n: u8)
    requires
        n < 16,
    ensures
        final(s)@ == old(s)@.push(hex_digit(n as nat)),
{
    let d: &str = if n == 0 {
        "0"
    } else if n == 1 {
        "1"
    } else if n == 2 {
        "2"
    } else if n == 3 {
        "3"
    } else if n == 4 {
        "4"
    } else if n == 5 {
        "5"
    } else if n == 6 {
        "6"
    } else if n == 7 {
        "7"
    } else if n == 8 {
        "8"
    } else if n == 9 {
        "9"
    } else if n == 10 {
        "a"
    } else if n == 11 {
        "b"
    } else if n == 12 {
        "c"
    } else if n == 13 {
        "d"
    } else if n == 14 {
        "e"
    } else {
        "f"
    };
    proof {
        reveal_strlit("0");
        reveal_strlit("1");
        reveal_strlit("2");
        reveal_strlit("3");
        reveal_strlit("4");
        reveal_strlit("5");
        reveal_strlit("6");
        reveal_strlit("7");
        reveal_strlit("8");
        reveal_strlit("9");
        reveal_strlit("a");
        reveal_strlit("b");
        reveal_strlit("c");
        reveal_strlit("d");
        reveal_strlit("e");
        reveal_strlit("f");
        assert(d@ =~= seq![hex_digit(n as nat)]);
    }
    s.append(d);
    proof {
        assert(s@ =~= old(s)@.push(hex_digit(n as nat)));
    }
}

/// The selector of a canonical signature string, as callers supply it in
/// calldata: for example, the signature of a transfer taking an address and
/// a 256-bit amount hashes to `a9059cbb`.
pub fn get_func_sig(in_str: String) -> (r: String)
    ensures
        r@ == selector_of(in_str@),
        r@.len() == 8,
{
    let digest = keccak_digest(in_str.as_str());
    let mut r = String::new();
    let mut i: usize = 0;
    while i < 4
        invariant
            i <= 4,
            digest@ == keccak_of(in_str@),
            digest@.len() == 32,
            r@ =~= selector_of(in_str@).take(2 * i),
        decreases 4 - i,
    {
        let b = digest[i];
        push_hex_digit(&mut r, b / 16);
        push_hex_digit(&mut r, b % 16);
        proof {
            assert(r@ =~= selector_of(in_str@).take(2 * (i + 1)));
        }
        i = i + 1;
    }
    proof {
        assert(r@ =~= selector_of(in_str@));
    }
    r
}

} // verus!
