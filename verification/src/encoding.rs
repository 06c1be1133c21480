//! Text encodings of bytes: lowercase hex and standard padded base64.

use vstd::prelude::*;

verus! {

/// The lowercase hexadecimal digit for a nibble.
pub open spec fn hex_digit(n: int) -> char {
    if n < 10 {
        ((n + 48) as u8) as char
    } else {
        ((n - 10 + 97) as u8) as char
    }
}

/// The two-character lowercase hex form of every byte, in order.
pub open spec fn hex_spec(bytes: Seq<u8>) -> Seq<char>
    decreases bytes.len(),
{
    if bytes.len() == 0 {
        Seq::empty()
    } else {
        hex_spec(bytes.drop_last()) + seq![
            hex_digit(bytes.last() as int / 16),
            hex_digit(bytes.last() as int % 16),
        ]
    }
}

fn nibble_char(n: u8) -> (c: char)
    requires
        n < 16,
    ensures
        c == hex_digit(n as int),
{
    if n < 10 {
        (n + 48) as char
    } else {
        (n - 10 + 97) as char
    }
}

/// Every byte becomes exactly two lowercase hex digits, so the text is twice as long as the bytes
/// and holds only `0-9` and `a-f`.
pub proof fn lemma_hex_is_two_lowercase_digits_a_byte(bytes: Seq<u8>)
    ensures
        hex_spec(bytes).len() == 2 * bytes.len(),
        forall|i: int|
            0 <= i < hex_spec(bytes).len() ==> ('0' <= #[trigger] hex_spec(bytes)[i] <= '9') || ('a'
                <= hex_spec(bytes)[i] <= 'f'),
    decreases bytes.len(),
{
    if bytes.len() > 0 {
        lemma_hex_is_two_lowercase_digits_a_byte(bytes.drop_last());
        let b = bytes.last() as int;
        assert(0 <= b / 16 < 16 && 0 <= b % 16 < 16);
        let h = hex_spec(bytes);
        let p = hex_spec(bytes.drop_last());
        assert forall|i: int| 0 <= i < h.len() implies ('0' <= #[trigger] h[i] <= '9') || ('a' <= h[i]
            <= 'f') by {
            if i < p.len() {
                assert(h[i] == p[i]);
            }
        }
    }
}

/// Lowercase hex, two digits per byte, for showing and re-parsing keys.
pub fn hex(bytes: &[u8]) -> (out: String)
    ensures
        out@ == hex_spec(bytes@),
{
    let mut out = String::new();
    let mut i: usize = 0;
    while i < bytes.len()
        invariant
            i <= bytes.len(),
            out@ == hex_spec(bytes@.take(i as int)),
        decreases bytes.len() - i,
    {
        let b = bytes[i];
        let hi = nibble_char(b / 16);
        let lo = nibble_char(b % 16);
        push_char(&mut out, hi);
        push_char(&mut out, lo);
        proof {
            assert(bytes@.take(i as int + 1).drop_last() =~= bytes@.take(i as int));
        }
        i = i + 1;
    }
    proof {
        assert(bytes@.take(bytes.len() as int) =~= bytes@);
    }
    out
}

/// `String::push`: appends one character.
#[verifier::external_body]
pub(crate) fn push_char(s: &mut String, c: char)
    ensures
        final(s)@ == old(s)@.push(c),
{
    s.push(c);
}


/// The base64 alphabet (standard, RFC 4648): `A-Z`, `a-z`, `0-9`, `+`, `/`.
pub open spec fn b64_char(i: int) -> char {
    if i < 26 {
        ((i + 65) as u8) as char
    } else if i < 52 {
        ((i - 26 + 97) as u8) as char
    } else if i < 62 {
        ((i - 52 + 48) as u8) as char
    } else if i == 62 {
        '+'
    } else {
        '/'
    }
}

/// The four characters that encode three bytes.
pub open spec fn b64_triple(b0: u8, b1: u8, b2: u8) -> Seq<char> {
    seq![
        b64_char(b0 as int / 4),
        b64_char((b0 as int % 4) * 16 + b1 as int / 16),
        b64_char((b1 as int % 16) * 4 + b2 as int / 64),
        b64_char(b2 as int % 64),
    ]
}

/// Base64 of a whole number of three-byte groups, group by group.
pub open spec fn b64_groups(s: Seq<u8>) -> Seq<char>
    decreases s.len(),
{
    if s.len() < 3 {
        Seq::empty()
    } else {
        b64_groups(s.take(s.len() - 3)) + b64_triple(
            s[s.len() - 3],
            s[s.len() - 2],
            s[s.len() - 1],
        )
    }
}

/// The padded encoding of the final one or two bytes (empty for none).
pub open spec fn b64_tail(t: Seq<u8>) -> Seq<char> {
    if t.len() == 1 {
        b64_triple(t[0], 0, 0).take(2) + seq!['=', '=']
    } else if t.len() == 2 {
        b64_triple(t[0], t[1], 0).take(3) + seq!['=']
    } else {
        Seq::empty()
    }
}

/// Standard padded base64 of `bytes`.
pub open spec fn base64_spec(bytes: Seq<u8>) -> Seq<char> {
    let full = bytes.len() - bytes.len() % 3;
    b64_groups(bytes.take(full)) + b64_tail(bytes.skip(full))
}

/// Whether `c` is in the base64 alphabet: `A-Z`, `a-z`, `0-9`, `+` or `/`.
pub open spec fn is_b64_char(c: char) -> bool {
    ('A' <= c <= 'Z') || ('a' <= c <= 'z') || ('0' <= c <= '9') || c == '+' || c == '/'
}

proof fn lemma_b64_char_in_alphabet(i: int)
    requires
        0 <= i < 64,
    ensures
        is_b64_char(b64_char(i)),
{
}

proof fn lemma_triple_in_alphabet(b0: u8, b1: u8, b2: u8)
    ensures
        forall|k: int| 0 <= k < 4 ==> is_b64_char(#[trigger] b64_triple(b0, b1, b2)[k]),
{
    lemma_b64_char_in_alphabet(b0 as int / 4);
    lemma_b64_char_in_alphabet((b0 as int % 4) * 16 + b1 as int / 16);
    lemma_b64_char_in_alphabet((b1 as int % 16) * 4 + b2 as int / 64);
    lemma_b64_char_in_alphabet(b2 as int % 64);
}

proof fn lemma_groups_shape(s: Seq<u8>)
    requires
        s.len() % 3 == 0,
    ensures
        b64_groups(s).len() == 4 * (s.len() / 3),
        forall|k: int| 0 <= k < b64_groups(s).len() ==> is_b64_char(#[trigger] b64_groups(s)[k]),
    decreases s.len(),
{
    if s.len() >= 3 {
        let d = s.take(s.len() - 3);
        lemma_groups_shape(d);
        let t = b64_triple(s[s.len() - 3], s[s.len() - 2], s[s.len() - 1]);
        lemma_triple_in_alphabet(s[s.len() - 3], s[s.len() - 2], s[s.len() - 1]);
        let g = b64_groups(d) + t;
        assert(b64_groups(s) == g);
        assert forall|k: int| 0 <= k < g.len() implies is_b64_char(#[trigger] g[k]) by {
            if k >= b64_groups(d).len() {
                assert(g[k] == t[k - b64_groups(d).len()]);
            } else {
                assert(g[k] == b64_groups(d)[k]);
            }
        }
    }
}

/// Standard base64 has the shape RFC 4648 gives it: four characters for every three bytes or
/// part of three, every character in the alphabet or `=`, and `=` only in the last two places.
pub proof fn lemma_base64_shape(bytes: Seq<u8>)
    ensures
        base64_spec(bytes).len() == 4 * ((bytes.len() + 2) / 3),
        forall|k: int|
            0 <= k < base64_spec(bytes).len() ==> is_b64_char(#[trigger] base64_spec(bytes)[k])
                || base64_spec(bytes)[k] == '=',
        forall|k: int| 0 <= k < base64_spec(bytes).len() - 2 ==> #[trigger] base64_spec(bytes)[k] != '=',
{
    let n = bytes.len();
    let full = n - n % 3;
    let head = bytes.take(full);
    let rest = bytes.skip(full);
    lemma_groups_shape(head);
    let g = b64_groups(head);
    let t = b64_tail(rest);
    let out = g + t;
    assert(base64_spec(bytes) == out);
    if rest.len() == 1 {
        lemma_triple_in_alphabet(rest[0], 0, 0);
        assert(t.len() == 4);
        assert(is_b64_char(t[0]) && is_b64_char(t[1]));
    } else if rest.len() == 2 {
        lemma_triple_in_alphabet(rest[0], rest[1], 0);
        assert(t.len() == 4);
        assert(is_b64_char(t[0]) && is_b64_char(t[1]) && is_b64_char(t[2]));
    } else {
        assert(t.len() == 0);
    }
    assert forall|k: int| 0 <= k < out.len() implies (is_b64_char(#[trigger] out[k]) || out[k] == '=') && (k < out.len() - 2 ==> out[k] != '=') by {
        if k < g.len() {
            assert(out[k] == g[k]);
        } else {
            assert(out[k] == t[k - g.len()]);
        }
    }
}

/// The value of a base64 alphabet character.
pub open spec fn b64_index(c: char) -> int {
    if 'A' <= c <= 'Z' {
        c as int - 65
    } else if 'a' <= c <= 'z' {
        c as int - 71
    } else if '0' <= c <= '9' {
        c as int + 4
    } else if c == '+' {
        62
    } else {
        63
    }
}

/// The bytes four characters of padded base64 stand for: three, or fewer where `=` pads them.
pub open spec fn unb64_quad(q: Seq<char>) -> Seq<u8> {
    let v0 = b64_index(q[0]);
    let v1 = b64_index(q[1]);
    let v2 = b64_index(q[2]);
    let v3 = b64_index(q[3]);
    let b0 = (v0 * 4 + v1 / 16) as u8;
    let b1 = ((v1 % 16) * 16 + v2 / 4) as u8;
    let b2 = ((v2 % 4) * 64 + v3) as u8;
    if q[2] == '=' {
        seq![b0]
    } else if q[3] == '=' {
        seq![b0, b1]
    } else {
        seq![b0, b1, b2]
    }
}

/// The bytes padded base64 text stands for, four characters at a time.
pub open spec fn unbase64_spec(t: Seq<char>) -> Seq<u8>
    decreases t.len(),
{
    if t.len() < 4 {
        Seq::empty()
    } else {
        unbase64_spec(t.take(t.len() - 4)) + unb64_quad(t.skip(t.len() - 4))
    }
}

proof fn lemma_b64_index(i: int)
    requires
        0 <= i < 64,
    ensures
        b64_index(b64_char(i)) == i,
        b64_char(i) != '=',
{
}

proof fn lemma_quad_of_triple(b0: u8, b1: u8, b2: u8)
    ensures
        unb64_quad(b64_triple(b0, b1, b2)) == seq![b0, b1, b2],
        unb64_quad(b64_triple(b0, b1, 0).take(3) + seq!['=']) == seq![b0, b1],
        unb64_quad(b64_triple(b0, 0, 0).take(2) + seq!['=', '=']) == seq![b0],
{
    let v0 = b0 as int / 4;
    let v1 = (b0 as int % 4) * 16 + b1 as int / 16;
    let v2 = (b1 as int % 16) * 4 + b2 as int / 64;
    let v3 = b2 as int % 64;
    lemma_b64_index(v0);
    lemma_b64_index(v1);
    lemma_b64_index(v2);
    lemma_b64_index(v3);
    assert(v0 * 4 + v1 / 16 == b0);
    assert((v1 % 16) * 16 + v2 / 4 == b1);
    assert((v2 % 4) * 64 + v3 == b2);
    let w1 = (b0 as int % 4) * 16 + b1 as int / 16;
    let w2 = (b1 as int % 16) * 4;
    lemma_b64_index(w2);
    assert(w2 / 4 == b1 as int % 16);
    let u1 = (b0 as int % 4) * 16;
    lemma_b64_index(u1);
    assert(u1 / 16 == b0 as int % 4);
    let t3 = b64_triple(b0, b1, 0).take(3) + seq!['='];
    assert(t3[0] == b64_char(v0) && t3[1] == b64_char(w1) && t3[2] == b64_char(w2) && t3[3] == '=');
    let t2 = b64_triple(b0, 0, 0).take(2) + seq!['=', '='];
    assert(t2[0] == b64_char(v0) && t2[1] == b64_char(u1) && t2[2] == '=');
    assert(unb64_quad(t3) =~= seq![b0, b1]);
    assert(unb64_quad(t2) =~= seq![b0]);
    assert(unb64_quad(b64_triple(b0, b1, b2)) =~= seq![b0, b1, b2]);
}

proof fn lemma_groups_decode(s: Seq<u8>)
    requires
        s.len() % 3 == 0,
    ensures
        unbase64_spec(b64_groups(s)) == s,
    decreases s.len(),
{
    if s.len() >= 3 {
        let d = s.take(s.len() - 3);
        lemma_groups_decode(d);
        lemma_groups_shape(d);
        let t = b64_triple(s[s.len() - 3], s[s.len() - 2], s[s.len() - 1]);
        let g = b64_groups(d) + t;
        assert(g.take(g.len() - 4) =~= b64_groups(d));
        assert(g.skip(g.len() - 4) =~= t);
        lemma_quad_of_triple(s[s.len() - 3], s[s.len() - 2], s[s.len() - 1]);
        assert(d + seq![s[s.len() - 3], s[s.len() - 2], s[s.len() - 1]] =~= s);
    } else {
        assert(s =~= Seq::<u8>::empty());
    }
}

/// Standard base64 decodes back: the bytes the text stands for are the bytes encoded, so no two
/// byte strings share an encoding.
pub proof fn lemma_base64_decodes_back(bytes: Seq<u8>)
    ensures
        unbase64_spec(base64_spec(bytes)) == bytes,
{
    let n = bytes.len();
    let full = n - n % 3;
    let head = bytes.take(full);
    let rest = bytes.skip(full);
    lemma_groups_decode(head);
    lemma_groups_shape(head);
    let g = b64_groups(head);
    let t = b64_tail(rest);
    if rest.len() == 0 {
        assert(g + t =~= g);
        assert(head =~= bytes);
    } else {
        let out = g + t;
        assert(t.len() == 4);
        assert(out.take(out.len() - 4) =~= g);
        assert(out.skip(out.len() - 4) =~= t);
        if rest.len() == 1 {
            lemma_quad_of_triple(rest[0], 0, 0);
            assert(head + seq![rest[0]] =~= bytes);
        } else {
            lemma_quad_of_triple(rest[0], rest[1], 0);
            assert(head + seq![rest[0], rest[1]] =~= bytes);
        }
    }
}

/// What standard padded base64 decoding gives for `t`: the bytes whose encoding `t` is, or `None`
/// where `t` is the encoding of no bytes.
pub open spec fn base64_decode_spec(t: Seq<char>) -> Option<Seq<u8>> {
    if exists|b: Seq<u8>| base64_spec(b) == t {
        Some(unbase64_spec(t))
    } else {
        None
    }
}

fn b64_char_exec(i: u8) -> (c: char)
    requires
        i < 64,
    ensures
        c == b64_char(i as int),
{
    if i < 26 {
        (i + 65) as char
    } else if i < 52 {
        (i - 26 + 97) as char
    } else if i < 62 {
        (i - 52 + 48) as char
    } else if i == 62 {
        '+'
    } else {
        '/'
    }
}

/// Minimal base64 (standard alphabet, padded) so screens can go straight into an `<img src>`.
pub fn base64(bytes: &[u8]) -> (out: String)
    ensures
        out@ == base64_spec(bytes@),
        out@.len() == 4 * ((bytes@.len() + 2) / 3),
{
    let n = bytes.len();
    let full = n - n % 3;
    let mut out = String::new();
    let mut i: usize = 0;
    while i < full
        invariant
            full == n - n % 3,
            n == bytes.len(),
            i <= full,
            i % 3 == 0,
            out@ == b64_groups(bytes@.take(i as int)),
            out@.len() == 4 * (i / 3),
        decreases full - i,
    {
        let (b0, b1, b2) = (bytes[i], bytes[i + 1], bytes[i + 2]);
        let ghost before = out@;
        push_char(&mut out, b64_char_exec(b0 / 4));
        push_char(&mut out, b64_char_exec((b0 % 4) * 16 + b1 / 16));
        push_char(&mut out, b64_char_exec((b1 % 16) * 4 + b2 / 64));
        push_char(&mut out, b64_char_exec(b2 % 64));
        proof {
            let t = bytes@.take(i as int + 3);
            assert(t.take(t.len() - 3) =~= bytes@.take(i as int));
            assert(out@ =~= before + b64_triple(b0, b1, b2));
        }
        i = i + 3;
    }
    let ghost groups = out@;
    let rest = n - full;
    if rest == 1 {
        let b0 = bytes[full];
        push_char(&mut out, b64_char_exec(b0 / 4));
        push_char(&mut out, b64_char_exec((b0 % 4) * 16));
        push_char(&mut out, '=');
        push_char(&mut out, '=');
        proof {
            assert(out@ =~= groups + b64_tail(bytes@.skip(full as int)));
        }
    } else if rest == 2 {
        let (b0, b1) = (bytes[full], bytes[full + 1]);
        push_char(&mut out, b64_char_exec(b0 / 4));
        push_char(&mut out, b64_char_exec((b0 % 4) * 16 + b1 / 16));
        push_char(&mut out, b64_char_exec((b1 % 16) * 4));
        push_char(&mut out, '=');
        proof {
            assert(out@ =~= groups + b64_tail(bytes@.skip(full as int)));
        }
    } else {
        proof {
            assert(out@ =~= groups + b64_tail(bytes@.skip(full as int)));
        }
    }
    out
}

} // verus!
