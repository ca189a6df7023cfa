//! The challenge/response login texts: the message that is signed, and the
//! hex encoding of the resulting signature.

use vstd::prelude::*;

use crate::textutil::{hex_encode, spec_dec, spec_hex, u64_string};

verus! {

/// The message signed to authenticate against a node at a given second.
pub fn auth_message(domain: &str, timestamp: u64) -> (r: String)
    ensures
        r@ == "Xnode Auth authenticate "@ + domain@ + " at "@ + spec_dec(timestamp as int),
{
    let ts = u64_string(timestamp);
    "Xnode Auth authenticate ".to_owned().concat(domain).concat(" at ").concat(ts.as_str())
}

/// The wire encoding of a signature: `0x` followed by the hex of
/// r ‖ s ‖ v.
pub fn encode_signature(r_part: &[u8], s_part: &[u8], v: u8) -> (r: String)
    ensures
        r@ == "0x"@ + spec_hex(r_part@ + s_part@ + seq![v]),
{
    let mut bytes: Vec<u8> = Vec::new();
    let n = r_part.len();
    let mut i: usize = 0;
    while i < n
        invariant
            n == r_part@.len(),
            0 <= i <= n,
            bytes@ == r_part@.subrange(0, i as int),
        decreases n - i,
    {
        bytes.push(r_part[i]);
        proof {
            assert(r_part@.subrange(0, i + 1) =~= r_part@.subrange(0, i as int).push(
                r_part@[i as int],
            ));
        }
        i = i + 1;
    }
    proof {
        assert(r_part@.subrange(0, r_part@.len() as int) =~= r_part@);
    }
    let m = s_part.len();
    let mut j: usize = 0;
    while j < m
        invariant
            m == s_part@.len(),
            0 <= j <= m,
            bytes@ == r_part@ + s_part@.subrange(0, j as int),
        decreases m - j,
    {
        bytes.push(s_part[j]);
        proof {
            assert(r_part@ + s_part@.subrange(0, j + 1) =~= (r_part@ + s_part@.subrange(
                0,
                j as int,
            )).push(s_part@[j as int]));
        }
        j = j + 1;
    }
    proof {
        assert(s_part@.subrange(0, s_part@.len() as int) =~= s_part@);
    }
    bytes.push(v);
    proof {
        assert(bytes@ =~= r_part@ + s_part@ + seq![v]);
    }
    let hex = hex_encode(bytes.as_slice());
    "0x".to_owned().concat(hex.as_str())
}

} // verus!
