//! Base64 encoding of a URL, as the terminal clipboard escape sequence
//! needs it.

use vstd::prelude::*;
use vstd::string::StrSliceExecFns;
use vstd::string::StringSliceAdditionalSpecFns;

verus! {

/// The 64 base64 digits, in order.
pub open spec fn b64_alphabet() -> Seq<char> {
    "ABCDEFGHIJKLMNOPQRSTUVWXYZabcdefghijklmnopqrstuvwxyz0123456789+/"@
}

/// How many 3-byte groups `n` bytes occupy, the last possibly partial.
pub open spec fn group_count(n: int) -> int {
    (n + 2) / 3
}

/// The 24-bit value of group `g`, high byte first, missing bytes zero.
pub open spec fn group_val(b: Seq<u8>, g: int) -> int {
    (if 3 * g < b.len() {
        b[3 * g] * 65536
    } else {
        0
    }) + (if 3 * g + 1 < b.len() {
        b[3 * g + 1] * 256
    } else {
        0
    }) + (if 3 * g + 2 < b.len() {
        b[3 * g + 2] as int
    } else {
        0
    })
}

/// The `k`-th six-bit digit of a 24-bit group value, high bits first.
pub open spec fn digit_of(v: int, k: int) -> int {
    if k == 0 {
        v / 262144 % 64
    } else if k == 1 {
        v / 4096 % 64
    } else if k == 2 {
        v / 64 % 64
    } else {
        v % 64
    }
}

/// The `j`-th output character: a digit while the group still has input
/// bytes (plus one), padding `=` after.
pub open spec fn b64_char_at(b: Seq<u8>, j: int) -> char {
    let g = j / 4;
    let k = j % 4;
    let bytes_in_group = if b.len() - 3 * g >= 3 {
        3int
    } else {
        b.len() - 3 * g
    };
    if k < bytes_in_group + 1 {
        b64_alphabet()[digit_of(group_val(b, g), k)]
    } else {
        '='
    }
}

/// The whole base64 text of `b`.
pub open spec fn b64_spec(b: Seq<u8>) -> Seq<char> {
    Seq::new((4 * group_count(b.len() as int)) as nat, |j: int| b64_char_at(b, j))
}

/// Encode the bytes of `input` in base64, four characters per 3-byte
/// group, padded with `=`.
pub fn base64_encode(input: &str) -> (r: String)
    ensures
        r@ == b64_spec(input.spec_bytes()),
{
    let alpha = "ABCDEFGHIJKLMNOPQRSTUVWXYZabcdefghijklmnopqrstuvwxyz0123456789+/";
    proof {
        reveal_strlit("ABCDEFGHIJKLMNOPQRSTUVWXYZabcdefghijklmnopqrstuvwxyz0123456789+/");
        assert(alpha@.len() == 64);
    }
    let bytes = input.as_bytes();
    let n = bytes.len();
    let mut r = String::new();
    let mut i: usize = 0;
    while i < n
        invariant
            n == bytes@.len(),
            bytes@ == input.spec_bytes(),
            alpha@ == b64_alphabet(),
            alpha@.len() == 64,
            i <= n,
            i % 3 == 0 || i == n,
            r@.len() == 4 * ((i + 2) / 3),
            forall|t: int| 0 <= t < r@.len() ==> r@[t] == b64_char_at(bytes@, t),
        decreases n - i,
    {
        let b0: u32 = bytes[i] as u32;
        let b1: u32 = if i + 1 < n {
            bytes[i + 1] as u32
        } else {
            0
        };
        let b2: u32 = if i + 2 < n {
            bytes[i + 2] as u32
        } else {
            0
        };
        let v: u32 = b0 * 65536 + b1 * 256 + b2;
        let chunk: usize = if n - i >= 3 {
            3
        } else {
            n - i
        };
        let d0: usize = (v / 262144 % 64) as usize;
        let d1: usize = (v / 4096 % 64) as usize;
        let d2: usize = (v / 64 % 64) as usize;
        let d3: usize = (v % 64) as usize;
        let ghost g = i as int / 3;
        let ghost len0 = r@.len() as int;
        proof {
            assert(3 * g == i);
            assert(group_val(bytes@, g) == v);
            assert(len0 == 4 * g);
        }
        r.push(alpha.get_char(d0));
        r.push(alpha.get_char(d1));
        if chunk >= 2 {
            r.push(alpha.get_char(d2));
        } else {
            r.push('=');
        }
        if chunk >= 3 {
            r.push(alpha.get_char(d3));
        } else {
            r.push('=');
        }
        proof {
            assert(r@.len() == len0 + 4);
            assert forall|t: int| 0 <= t < r@.len() implies r@[t] == b64_char_at(
                bytes@,
                t,
            ) by {
                if t >= len0 {
                    let k = t - len0;
                    assert(t / 4 == g && t % 4 == k);
                    let bytes_in_group = if bytes@.len() - 3 * g >= 3 {
                        3int
                    } else {
                        bytes@.len() - 3 * g
                    };
                    assert(bytes_in_group == chunk);
                    if k == 0 {
                        assert(r@[t] == alpha@[d0 as int]);
                        assert(digit_of(v as int, 0) == d0);
                    } else if k == 1 {
                        assert(r@[t] == alpha@[d1 as int]);
                        assert(digit_of(v as int, 1) == d1);
                    } else if k == 2 {
                        if chunk >= 2 {
                            assert(r@[t] == alpha@[d2 as int]);
                            assert(digit_of(v as int, 2) == d2);
                        } else {
                            assert(r@[t] == '=');
                        }
                    } else {
                        if chunk >= 3 {
                            assert(r@[t] == alpha@[d3 as int]);
                            assert(digit_of(v as int, 3) == d3);
                        } else {
                            assert(r@[t] == '=');
                        }
                    }
                }
            }
        }
        if n - i >= 3 {
            i += 3;
        } else {
            i = n;
        }
        proof {
            assert(r@.len() == 4 * ((i + 2) / 3));
        }
    }
    proof {
        assert(r@ =~= b64_spec(input.spec_bytes()));
    }
    r
}

} // verus!
