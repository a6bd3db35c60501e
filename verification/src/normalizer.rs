//! Decoding the wire-level state field of a toplevel into the internal state
//! set.
//!
//! The wire field is a byte array read as a sequence of 32-bit little-endian
//! words, each one state flag. Unrecognized or forward-incompatible flag
//! values are dropped silently — a corrupt bit never aborts decoding of the
//! remaining valid flags — and a trailing fragment shorter than one word is
//! ignored.

use vstd::prelude::*;

use crate::toplevel::{ToplevelState, ToplevelStateSet};

verus! {

/// The flag a wire word names: `0` maximized, `1` minimized, `2` activated,
/// `3` fullscreen, anything else unrecognized.
pub open spec fn spec_state_flag_from_u32(v: u32) -> Option<ToplevelState> {
    if v == 0 {
        Some(ToplevelState::Maximized)
    } else if v == 1 {
        Some(ToplevelState::Minimized)
    } else if v == 2 {
        Some(ToplevelState::Activated)
    } else if v == 3 {
        Some(ToplevelState::Fullscreen)
    } else {
        None
    }
}

/// The value of the `i`-th 32-bit little-endian word of the byte array.
pub open spec fn spec_chunk_value(bytes: Seq<u8>, i: int) -> int {
    bytes[4 * i] + bytes[4 * i + 1] * 0x100 + bytes[4 * i + 2] * 0x10000 + bytes[4 * i + 3]
        * 0x1000000
}

/// Whether decoding the byte array yields this flag: some whole word of the
/// array names it.
pub open spec fn spec_decoded_contains(bytes: Seq<u8>, s: ToplevelState) -> bool {
    exists|i: int|
        0 <= i < bytes.len() / 4 && spec_state_flag_from_u32(
            #[trigger] spec_chunk_value(bytes, i) as u32,
        ) == Some(s)
}

/// The flag a wire word names, if any.
pub fn state_flag_from_u32(v: u32) -> (r: Option<ToplevelState>)
    ensures
        r == spec_state_flag_from_u32(v),
{
    if v == 0 {
        Some(ToplevelState::Maximized)
    } else if v == 1 {
        Some(ToplevelState::Minimized)
    } else if v == 2 {
        Some(ToplevelState::Activated)
    } else if v == 3 {
        Some(ToplevelState::Fullscreen)
    } else {
        None
    }
}

/// Decode a wire-level state field: the resulting set holds exactly the
/// flags that some whole 32-bit word of the array names. Unrecognized words
/// and a trailing fragment contribute nothing.
pub fn toplevel_state_set_from_bytes(bytes: &Vec<u8>) -> (r: ToplevelStateSet)
    ensures
        forall|s: ToplevelState| #[trigger]
            r.spec_contains(s) == spec_decoded_contains(bytes@, s),
{
    let mut r = ToplevelStateSet::new();
    let mut i: usize = 0;
    proof {
        assert(bytes@.len() / 4 >= 0);
    }
    while bytes.len() - i >= 4
        invariant
            i <= bytes.len(),
            i % 4 == 0,
            i / 4 <= bytes@.len() / 4,
            forall|s: ToplevelState| #[trigger]
                r.spec_contains(s) == (exists|c: int|
                    0 <= c < i / 4 && spec_state_flag_from_u32(
                        #[trigger] spec_chunk_value(bytes@, c) as u32,
                    ) == Some(s)),
        decreases bytes.len() - i,
    {
        let b0 = bytes[i] as u32;
        let b1 = bytes[i + 1] as u32;
        let b2 = bytes[i + 2] as u32;
        let b3 = bytes[i + 3] as u32;
        let value: u32 = b0 + b1 * 0x100 + b2 * 0x10000 + b3 * 0x1000000;
        let ghost c = i as int / 4;
        proof {
            assert(4 * c == i as int);
            assert(spec_chunk_value(bytes@, c) == value) by {
                assert(bytes@[4 * c] == b0 && bytes@[4 * c + 1] == b1 && bytes@[4 * c + 2] == b2
                    && bytes@[4 * c + 3] == b3);
            }
            assert(c < bytes@.len() / 4);
        }
        let ghost r0 = r;
        match state_flag_from_u32(value) {
            Some(s) => {
                r.insert(s);
                proof {
                    assert forall|t: ToplevelState| #[trigger]
                        r.spec_contains(t) == (exists|cc: int|
                            0 <= cc < (i + 4) / 4 && spec_state_flag_from_u32(
                                #[trigger] spec_chunk_value(bytes@, cc) as u32,
                            ) == Some(t)) by {
                        assert((i + 4) / 4 == c + 1);
                        if r.spec_contains(t) {
                            if t == s {
                                assert(spec_state_flag_from_u32(
                                    spec_chunk_value(bytes@, c) as u32,
                                ) == Some(t));
                            } else {
                                assert(r0.spec_contains(t));
                            }
                        } else {
                            assert(!r0.spec_contains(t));
                            if exists|cc: int|
                                0 <= cc < c + 1 && spec_state_flag_from_u32(
                                    #[trigger] spec_chunk_value(bytes@, cc) as u32,
                                ) == Some(t) {
                                let wc = choose|cc: int|
                                    0 <= cc < c + 1 && spec_state_flag_from_u32(
                                        #[trigger] spec_chunk_value(bytes@, cc) as u32,
                                    ) == Some(t);
                                assert(wc == c || wc < c);
                                if wc == c {
                                    assert(t == s);
                                    assert(r.spec_contains(t));
                                }
                            }
                        }
                    }
                }
            },
            None => {
                proof {
                    assert forall|t: ToplevelState| #[trigger]
                        r.spec_contains(t) == (exists|cc: int|
                            0 <= cc < (i + 4) / 4 && spec_state_flag_from_u32(
                                #[trigger] spec_chunk_value(bytes@, cc) as u32,
                            ) == Some(t)) by {
                        assert((i + 4) / 4 == c + 1);
                        if !r.spec_contains(t) {
                            if exists|cc: int|
                                0 <= cc < c + 1 && spec_state_flag_from_u32(
                                    #[trigger] spec_chunk_value(bytes@, cc) as u32,
                                ) == Some(t) {
                                let wc = choose|cc: int|
                                    0 <= cc < c + 1 && spec_state_flag_from_u32(
                                        #[trigger] spec_chunk_value(bytes@, cc) as u32,
                                    ) == Some(t);
                                assert(wc < c);
                            }
                        }
                    }
                }
            },
        }
        i += 4;
    }
    proof {
        assert(i / 4 == bytes@.len() / 4) by {
            assert(bytes@.len() - i < 4);
            assert(i == 4 * (i as int / 4));
        }
    }
    r
}

} // verus!
