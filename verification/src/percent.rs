//! Percent-encoding of opaque payload bytes for the control-plane query
//! string.
//!
//! The client encodes a launch argument before placing it in the forward
//! request's query; the server decodes the query back to the exact payload.
//! Decoding also accepts lower-case escapes and `+` for a space, as query
//! strings conventionally allow; the encoder never produces either, so
//! decoding inverts encoding on every payload.

use vstd::prelude::*;

verus! {

/// Bytes a percent-encoder keeps verbatim: ASCII letters, digits and
/// `-` `.` `_` `~`.
pub open spec fn is_unreserved(b: u8) -> bool {
    (('A' as u8) <= b && b <= ('Z' as u8)) || (('a' as u8) <= b && b <= ('z' as u8)) || (('0'
        as u8) <= b && b <= ('9' as u8)) || b == ('-' as u8) || b == ('.' as u8) || b == ('_'
        as u8) || b == ('~' as u8)
}

/// The upper-case ASCII digit of a hex value below sixteen.
pub open spec fn hex_digit(n: u8) -> u8
    recommends
        n < 16,
{
    if n < 10 {
        (('0' as u8) + n) as u8
    } else {
        (('A' as u8) + (n - 10)) as u8
    }
}

/// Whether a byte is an ASCII hex digit, either case.
pub open spec fn is_hex_digit(b: u8) -> bool {
    (('0' as u8) <= b && b <= ('9' as u8)) || (('A' as u8) <= b && b <= ('F' as u8)) || (('a'
        as u8) <= b && b <= ('f' as u8))
}

/// The value of an ASCII hex digit, either case.
pub open spec fn hex_value(b: u8) -> u8
    recommends
        is_hex_digit(b),
{
    if ('0' as u8) <= b && b <= ('9' as u8) {
        (b - ('0' as u8)) as u8
    } else if ('A' as u8) <= b && b <= ('F' as u8) {
        (b - ('A' as u8) + 10) as u8
    } else {
        (b - ('a' as u8) + 10) as u8
    }
}

/// How one byte is encoded: unreserved bytes stand as they are, every other
/// byte becomes `%` followed by its two upper-case hex digits.
pub open spec fn encoded_byte(b: u8) -> Seq<u8> {
    if is_unreserved(b) {
        seq![b]
    } else {
        seq![('%' as u8), hex_digit((b / 16) as u8), hex_digit((b % 16) as u8)]
    }
}

/// The encoding of a whole payload, byte by byte.
pub open spec fn encoded(s: Seq<u8>) -> Seq<u8>
    decreases s.len(),
{
    if s.len() == 0 {
        Seq::empty()
    } else {
        encoded_byte(s[0]) + encoded(s.skip(1))
    }
}

/// The decoding of a query value: `%` must head two hex digits, `+` stands
/// for a space, every other byte stands for itself. A malformed escape
/// decodes to nothing.
pub open spec fn decoded(s: Seq<u8>) -> Option<Seq<u8>>
    decreases s.len(),
{
    if s.len() == 0 {
        Some(Seq::empty())
    } else if s[0] == ('%' as u8) {
        if s.len() >= 3 && is_hex_digit(s[1]) && is_hex_digit(s[2]) {
            match decoded(s.skip(3)) {
                Some(rest) => Some(seq![(hex_value(s[1]) * 16 + hex_value(s[2])) as u8] + rest),
                None => None,
            }
        } else {
            None
        }
    } else if s[0] == ('+' as u8) {
        match decoded(s.skip(1)) {
            Some(rest) => Some(seq![(' ' as u8)] + rest),
            None => None,
        }
    } else {
        match decoded(s.skip(1)) {
            Some(rest) => Some(seq![s[0]] + rest),
            None => None,
        }
    }
}

/// Encoding distributes over concatenation.
pub proof fn lemma_encoded_append(s: Seq<u8>, t: Seq<u8>)
    ensures
        encoded(s + t) == encoded(s) + encoded(t),
    decreases s.len(),
{
    if s.len() == 0 {
        assert(s + t =~= t);
        assert(encoded(s) + encoded(t) =~= encoded(t));
    } else {
        assert((s + t).skip(1) =~= s.skip(1) + t);
        lemma_encoded_append(s.skip(1), t);
        assert((s + t)[0] == s[0]);
        assert(encoded(s + t) =~= encoded(s) + encoded(t));
    }
}

/// The encoding of a single byte is that byte's encoding.
proof fn lemma_encoded_singleton(b: u8)
    ensures
        encoded(seq![b]) == encoded_byte(b),
{
    assert(seq![b].skip(1) =~= Seq::<u8>::empty());
    assert(seq![b][0] == b);
    assert(encoded(seq![b]) =~= encoded_byte(b) + encoded(Seq::<u8>::empty()));
    assert(encoded_byte(b) + Seq::<u8>::empty() =~= encoded_byte(b));
}

/// The hex digit of a value below sixteen is a hex digit and reads back to
/// that value.
proof fn lemma_hex_digit_value(n: u8)
    requires
        n < 16,
    ensures
        is_hex_digit(hex_digit(n)),
        hex_value(hex_digit(n)) == n,
{
}

/// Law: decoding inverts encoding — the server reads back exactly the
/// payload the client encoded, whatever bytes it holds.
pub proof fn lemma_decode_inverts_encode(s: Seq<u8>)
    ensures
        decoded(encoded(s)) == Some(s),
    decreases s.len(),
{
    if s.len() == 0 {
    } else {
        let b = s[0];
        let rest = s.skip(1);
        lemma_decode_inverts_encode(rest);
        if is_unreserved(b) {
            let e = encoded(s);
            assert(e =~= seq![b] + encoded(rest));
            assert(e[0] == b);
            assert(b != ('%' as u8) && b != ('+' as u8));
            assert(e.skip(1) =~= encoded(rest));
            let d = decoded(encoded(rest)).unwrap();
            assert(d == rest);
            assert(seq![b] + rest =~= s);
        } else {
            let hi = (b / 16) as u8;
            let lo = (b % 16) as u8;
            assert(hi < 16 && lo < 16);
            lemma_hex_digit_value(hi);
            lemma_hex_digit_value(lo);
            let e = encoded(s);
            assert(e =~= seq![('%' as u8), hex_digit(hi), hex_digit(lo)] + encoded(rest));
            assert(e[0] == ('%' as u8));
            assert(e.len() >= 3);
            assert(e[1] == hex_digit(hi) && e[2] == hex_digit(lo));
            assert(e.skip(3) =~= encoded(rest));
            assert(hex_value(e[1]) * 16 + hex_value(e[2]) == hi * 16 + lo);
            assert(hi * 16 + lo == b) by {
                vstd::arithmetic::div_mod::lemma_fundamental_div_mod(b as int, 16);
            }
            assert(seq![b] + rest =~= s);
        }
    }
}

/// The hex digit of a value below sixteen, executably.
fn hex_digit_exec(n: u8) -> (r: u8)
    requires
        n < 16,
    ensures
        r == hex_digit(n),
{
    if n < 10 {
        ('0' as u8) + n
    } else {
        ('A' as u8) + (n - 10)
    }
}

/// The value of an ASCII hex digit, or nothing for any other byte.
fn hex_value_exec(b: u8) -> (r: Option<u8>)
    ensures
        match r {
            Some(v) => is_hex_digit(b) && v == hex_value(b),
            None => !is_hex_digit(b),
        },
{
    if ('0' as u8) <= b && b <= ('9' as u8) {
        Some(b - ('0' as u8))
    } else if ('A' as u8) <= b && b <= ('F' as u8) {
        Some(b - ('A' as u8) + 10)
    } else if ('a' as u8) <= b && b <= ('f' as u8) {
        Some(b - ('a' as u8) + 10)
    } else {
        None
    }
}

/// Percent-encode a payload.
pub fn percent_encode(s: &Vec<u8>) -> (r: Vec<u8>)
    ensures
        r@ == encoded(s@),
{
    let mut r: Vec<u8> = Vec::new();
    let mut i: usize = 0;
    while i < s.len()
        invariant
            i <= s.len(),
            r@ == encoded(s@.subrange(0, i as int)),
        decreases s.len() - i,
    {
        let b = s[i];
        if (('A' as u8) <= b && b <= ('Z' as u8)) || (('a' as u8) <= b && b <= ('z' as u8)) || (('0'
            as u8) <= b && b <= ('9' as u8)) || b == ('-' as u8) || b == ('.' as u8) || b == ('_'
            as u8) || b == ('~' as u8) {
            r.push(b);
        } else {
            r.push('%' as u8);
            r.push(hex_digit_exec(b / 16));
            r.push(hex_digit_exec(b % 16));
        }
        proof {
            let pre = s@.subrange(0, i as int);
            assert(s@.subrange(0, i as int + 1) =~= pre + seq![s@[i as int]]);
            lemma_encoded_append(pre, seq![s@[i as int]]);
            lemma_encoded_singleton(s@[i as int]);
            assert(r@ =~= encoded(s@.subrange(0, i as int + 1)));
        }
        i = i + 1;
    }
    proof {
        assert(s@.subrange(0, s@.len() as int) =~= s@);
    }
    r
}

/// Decode a query value, or nothing if an escape is malformed.
pub fn percent_decode(s: &Vec<u8>) -> (r: Option<Vec<u8>>)
    ensures
        match r {
            Some(v) => decoded(s@) == Some(v@),
            None => decoded(s@) is None,
        },
{
    let mut out: Vec<u8> = Vec::new();
    let mut i: usize = 0;
    proof {
        assert(s@.skip(0) =~= s@);
        if decoded(s@) is Some {
            assert(Seq::<u8>::empty() + decoded(s@).unwrap() =~= decoded(s@).unwrap());
        }
    }
    while i < s.len()
        invariant
            i <= s.len(),
            decoded(s@) == match decoded(s@.skip(i as int)) {
                Some(rest) => Some(out@ + rest),
                None => None::<Seq<u8>>,
            },
        decreases s.len() - i,
    {
        let ghost pre_out = out@;
        let ghost tail = s@.skip(i as int);
        proof {
            assert(tail[0] == s@[i as int]);
        }
        let b = s[i];
        if b == ('%' as u8) {
            if s.len() - i < 3 {
                proof {
                    assert(tail.len() < 3);
                    assert(decoded(tail) is None);
                }
                return None;
            }
            let d1 = hex_value_exec(s[i + 1]);
            let d2 = hex_value_exec(s[i + 2]);
            proof {
                assert(tail[1] == s@[i as int + 1]);
                assert(tail[2] == s@[i as int + 2]);
            }
            match (d1, d2) {
                (Some(v1), Some(v2)) => {
                    out.push(v1 * 16 + v2);
                    proof {
                        assert(tail.skip(3) =~= s@.skip(i as int + 3));
                        assert(out@ =~= pre_out + seq![(hex_value(tail[1]) * 16 + hex_value(
                            tail[2],
                        )) as u8]);
                        if decoded(s@.skip(i as int + 3)) is Some {
                            let rest = decoded(s@.skip(i as int + 3)).unwrap();
                            assert(pre_out + (seq![(hex_value(tail[1]) * 16 + hex_value(tail[2]))
                                as u8] + rest) =~= out@ + rest);
                        }
                    }
                    i = i + 3;
                },
                _ => {
                    proof {
                        assert(decoded(tail) is None);
                    }
                    return None;
                },
            }
        } else {
            if b == ('+' as u8) {
                out.push(' ' as u8);
            } else {
                out.push(b);
            }
            proof {
                assert(tail.skip(1) =~= s@.skip(i as int + 1));
                if decoded(s@.skip(i as int + 1)) is Some {
                    let rest = decoded(s@.skip(i as int + 1)).unwrap();
                    if b == ('+' as u8) {
                        assert(out@ =~= pre_out + seq![(' ' as u8)]);
                        assert(pre_out + (seq![(' ' as u8)] + rest) =~= out@ + rest);
                    } else {
                        assert(out@ =~= pre_out + seq![tail[0]]);
                        assert(pre_out + (seq![tail[0]] + rest) =~= out@ + rest);
                    }
                }
            }
            i = i + 1;
        }
    }
    proof {
        assert(s@.skip(i as int) =~= Seq::<u8>::empty());
        assert(decoded(s@.skip(i as int)) == Some(Seq::<u8>::empty()));
        assert(out@ + Seq::<u8>::empty() =~= out@);
    }
    Some(out)
}

} // verus!
