use vstd::prelude::*;
use crate::command::pairs_view;
use crate::text::{text_of, copy_text, dec_of_u64, spec_dec, opt_text_view};

verus! {

// ---------------------------------------------------------------------------
// The parameter codec: a descriptor's typed optional fields become an
// ordered list of key/value pairs holding only the present values.
// ---------------------------------------------------------------------------

/// The pairs an optional text field contributes: one when present, none
/// when absent.
pub open spec fn opt_pair(key: Seq<char>, v: Option<Seq<char>>) -> Seq<(Seq<char>, Seq<char>)> {
    match v {
        Some(t) => seq![(key, t)],
        None => Seq::empty(),
    }
}

/// The pairs an optional page number contributes, in canonical decimal.
pub open spec fn opt_num_pair(key: Seq<char>, v: Option<u32>) -> Seq<(Seq<char>, Seq<char>)> {
    match v {
        Some(n) => seq![(key, spec_dec(n as nat))],
        None => Seq::empty(),
    }
}

/// The pairs a default-false flag contributes: the literal `true` when set,
/// nothing at all when not.
pub open spec fn flag_pair(key: Seq<char>, b: bool) -> Seq<(Seq<char>, Seq<char>)> {
    if b {
        seq![(key, "true"@)]
    } else {
        Seq::empty()
    }
}

/// Appends an optional text field's pair, if present.
pub fn push_opt_text_param(r: &mut Vec<(Vec<char>, Vec<char>)>, key: &str, v: &Option<Vec<char>>)
    ensures
        pairs_view(final(r)@) == pairs_view(old(r)@) + opt_pair(key@, opt_text_view(*v)),
{
    match v {
        Some(t) => {
            r.push((text_of(key), copy_text(t)));
            proof {
                assert(r@.drop_last() =~= old(r)@);
                assert(pairs_view(r@) =~= pairs_view(old(r)@) + opt_pair(
                    key@,
                    opt_text_view(*v),
                ));
            }
        },
        None => {
            proof {
                assert(pairs_view(r@) =~= pairs_view(old(r)@) + opt_pair(
                    key@,
                    opt_text_view(*v),
                ));
            }
        },
    }
}

/// Appends an optional number field's pair, if present.
pub fn push_opt_num_param(r: &mut Vec<(Vec<char>, Vec<char>)>, key: &str, v: &Option<u32>)
    ensures
        pairs_view(final(r)@) == pairs_view(old(r)@) + opt_num_pair(key@, *v),
{
    match v {
        Some(n) => {
            r.push((text_of(key), dec_of_u64(*n as u64)));
            proof {
                assert(r@.drop_last() =~= old(r)@);
                assert(pairs_view(r@) =~= pairs_view(old(r)@) + opt_num_pair(key@, *v));
            }
        },
        None => {
            proof {
                assert(pairs_view(r@) =~= pairs_view(old(r)@) + opt_num_pair(key@, *v));
            }
        },
    }
}

/// Appends a flag's pair when the flag is set.
pub fn push_flag_param(r: &mut Vec<(Vec<char>, Vec<char>)>, key: &str, b: bool)
    ensures
        pairs_view(final(r)@) == pairs_view(old(r)@) + flag_pair(key@, b),
{
    if b {
        r.push((text_of(key), text_of("true")));
        proof {
            assert(r@.drop_last() =~= old(r)@);
            assert(pairs_view(r@) =~= pairs_view(old(r)@) + flag_pair(key@, b));
        }
    } else {
        proof {
            assert(pairs_view(r@) =~= pairs_view(old(r)@) + flag_pair(key@, b));
        }
    }
}



// ---------------------------------------------------------------------------
// The query string: pairs joined by `&`, keys and values percent-encoded.
// ---------------------------------------------------------------------------

/// Characters that pass through a query component unchanged.
pub open spec fn is_unreserved(c: char) -> bool {
    (65 <= c as u32 && c as u32 <= 90) || (97 <= c as u32 && c as u32 <= 122) || (48 <= c as u32
        && c as u32 <= 57) || c == '-' || c == '.' || c == '_' || c == '~'
}

/// The uppercase hexadecimal digit for a value below sixteen.
pub open spec fn hex_char(d: nat) -> char {
    if d < 10 {
        ((d + 48) as u8) as char
    } else {
        ((d + 55) as u8) as char
    }
}

/// The percent form of one byte.
pub open spec fn spec_pct_byte(b: u8) -> Seq<char> {
    seq!['%', hex_char((b >> 4) as nat), hex_char((b & 0x0F) as nat)]
}

pub open spec fn spec_pct_bytes(bs: Seq<u8>) -> Seq<char>
    decreases bs.len(),
{
    if bs.len() == 0 {
        Seq::empty()
    } else {
        spec_pct_bytes(bs.drop_last()) + spec_pct_byte(bs.last())
    }
}

/// How one character reaches the wire: unreserved characters pass through,
/// anything else as the percent form of its UTF-8 bytes.
pub open spec fn spec_pct_char(c: char) -> Seq<char> {
    if is_unreserved(c) {
        seq![c]
    } else {
        spec_pct_bytes(vstd::utf8::encode_scalar(c as u32))
    }
}

pub open spec fn spec_pct_text(t: Seq<char>) -> Seq<char>
    decreases t.len(),
{
    if t.len() == 0 {
        Seq::empty()
    } else {
        spec_pct_text(t.drop_last()) + spec_pct_char(t.last())
    }
}

pub open spec fn spec_query_pair(p: (Seq<char>, Seq<char>)) -> Seq<char> {
    spec_pct_text(p.0) + seq!['='] + spec_pct_text(p.1)
}

/// The whole query string: the pairs in order, joined by `&`.
pub open spec fn spec_query_string(ps: Seq<(Seq<char>, Seq<char>)>) -> Seq<char>
    decreases ps.len(),
{
    if ps.len() == 0 {
        Seq::empty()
    } else if ps.len() == 1 {
        spec_query_pair(ps[0])
    } else {
        spec_query_string(ps.drop_last()) + seq!['&'] + spec_query_pair(ps.last())
    }
}

/// The UTF-8 bytes of one character.
fn utf8_of_char(c: char) -> (r: Vec<u8>)
    ensures
        r@ == vstd::utf8::encode_scalar(c as u32),
{
    let v = c as u32;
    let mut out: Vec<u8> = Vec::new();
    if v <= 0x7F {
        out.push((v & 0x7F) as u8);
        proof {
            assert(out@ =~= vstd::utf8::encode_scalar(c as u32));
        }
    } else if v <= 0x7FF {
        out.push(0xC0u8 | ((v >> 6) & 0x1F) as u8);
        out.push(0x80u8 | (v & 0x3F) as u8);
        proof {
            assert(out@ =~= vstd::utf8::encode_scalar(c as u32));
        }
    } else if v <= 0xFFFF {
        out.push(0xE0u8 | ((v >> 12) & 0x0F) as u8);
        out.push(0x80u8 | ((v >> 6) & 0x3F) as u8);
        out.push(0x80u8 | (v & 0x3F) as u8);
        proof {
            assert(out@ =~= vstd::utf8::encode_scalar(c as u32));
        }
    } else {
        out.push(0xF0u8 | ((v >> 18) & 0x7) as u8);
        out.push(0x80u8 | ((v >> 12) & 0x3F) as u8);
        out.push(0x80u8 | ((v >> 6) & 0x3F) as u8);
        out.push(0x80u8 | (v & 0x3F) as u8);
        proof {
            assert(out@ =~= vstd::utf8::encode_scalar(c as u32));
        }
    }
    out
}

fn hex_char_of(d: u8) -> (r: char)
    requires
        d < 16,
    ensures
        r == hex_char(d as nat),
{
    if d < 10 {
        ((d + 48) as u8) as char
    } else {
        ((d + 55) as u8) as char
    }
}

/// Appends the percent-encoded form of `t`.
fn write_pct(t: &Vec<char>, out: &mut Vec<char>)
    ensures
        final(out)@ == old(out)@ + spec_pct_text(t@),
{
    let mut i: usize = 0;
    while i < t.len()
        invariant
            i <= t@.len(),
            out@ == old(out)@ + spec_pct_text(t@.take(i as int)),
        decreases t@.len() - i,
    {
        let c = t[i];
        let u = c as u32;
        if (65 <= u && u <= 90) || (97 <= u && u <= 122) || (48 <= u && u <= 57) || c == '-' || c
            == '.' || c == '_' || c == '~' {
            out.push(c);
            proof {
                assert(is_unreserved(c));
            }
        } else {
            proof {
                assert(!is_unreserved(c));
            }
            let bs = utf8_of_char(c);
            let mut k: usize = 0;
            while k < bs.len()
                invariant
                    k <= bs@.len(),
                    bs@ == vstd::utf8::encode_scalar(c as u32),
                    out@ == old(out)@ + spec_pct_text(t@.take(i as int)) + spec_pct_bytes(
                        bs@.take(k as int),
                    ),
                decreases bs@.len() - k,
            {
                let b = bs[k];
                proof {
                    assert(b >> 4 < 16 && b & 0x0F < 16) by (bit_vector);
                }
                out.push('%');
                out.push(hex_char_of(b >> 4));
                out.push(hex_char_of(b & 0x0F));
                proof {
                    assert(bs@.take(k + 1).drop_last() =~= bs@.take(k as int));
                    assert(bs@.take(k + 1).last() == bs@[k as int]);
                    assert(out@ =~= old(out)@ + spec_pct_text(t@.take(i as int)) + spec_pct_bytes(
                        bs@.take(k + 1),
                    ));
                }
                k = k + 1;
            }
            proof {
                assert(bs@.take(bs@.len() as int) =~= bs@);
            }
        }
        proof {
            assert(t@.take(i + 1).drop_last() =~= t@.take(i as int));
            assert(t@.take(i + 1).last() == t@[i as int]);
            assert(out@ =~= old(out)@ + spec_pct_text(t@.take(i + 1)));
        }
        i = i + 1;
    }
    proof {
        assert(t@.take(t@.len() as int) =~= t@);
    }
}

/// Builds the query string of a parameter list: pairs in order, keys and
/// values percent-encoded, joined by `&`.
pub fn query_string(params: &Vec<(Vec<char>, Vec<char>)>) -> (r: Vec<char>)
    ensures
        r@ == spec_query_string(pairs_view(params@)),
{
    let ghost ps = pairs_view(params@);
    let mut out: Vec<char> = Vec::new();
    let mut i: usize = 0;
    proof {
        assert(ps.len() == params@.len());
        assert(out@ =~= spec_query_string(ps.take(0)));
    }
    while i < params.len()
        invariant
            i <= params@.len(),
            ps == pairs_view(params@),
            ps.len() == params@.len(),
            forall|q: int| 0 <= q < ps.len() ==> #[trigger] ps[q] == (params@[q].0@, params@[q].1@),
            out@ == spec_query_string(ps.take(i as int)),
        decreases params@.len() - i,
    {
        if i > 0 {
            out.push('&');
        }
        write_pct(&params[i].0, &mut out);
        out.push('=');
        write_pct(&params[i].1, &mut out);
        proof {
            assert(ps.take(i + 1).drop_last() =~= ps.take(i as int));
            assert(ps.take(i + 1).last() == ps[i as int]);
            if i == 0 {
                assert(spec_query_string(ps.take(1)) == spec_query_pair(ps[0]));
            } else {
                assert(spec_query_string(ps.take(i + 1)) == spec_query_string(ps.take(i as int))
                    + seq!['&'] + spec_query_pair(ps[i as int]));
            }
            assert(out@ =~= spec_query_string(ps.take(i + 1)));
        }
        i = i + 1;
    }
    proof {
        assert(ps.take(ps.len() as int) =~= ps);
    }
    out
}

} // verus!
