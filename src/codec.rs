use vstd::prelude::*;

verus! {

/// The ASCII lowercase hexadecimal digit for `n < 16`.
pub open spec fn hex_digit(n: u8) -> u8 {
    if n < 10 {
        (n + 48) as u8
    } else {
        (n + 87) as u8
    }
}

/// Whether `c` is an ASCII digit or a lowercase letter `a` to `f`.
pub open spec fn is_hex_char(c: u8) -> bool {
    (48 <= c && c <= 57) || (97 <= c && c <= 102)
}

/// The value of a hexadecimal digit.
pub open spec fn hex_value(c: u8) -> u8 {
    if c <= 57 {
        (c - 48) as u8
    } else {
        (c - 87) as u8
    }
}

/// Two lowercase hexadecimal digits per byte, high digit first.
pub open spec fn hex_text(b: Seq<u8>) -> Seq<u8> {
    Seq::new(
        2 * b.len(),
        |i: int|
            if i % 2 == 0 {
                hex_digit(b[i / 2] / 16)
            } else {
                hex_digit(b[i / 2] % 16)
            },
    )
}

/// The bytes that a hexadecimal text stands for; `None` when its length is odd or a
/// character is not a lowercase hexadecimal digit.
pub open spec fn hex_decoded(t: Seq<u8>) -> Option<Seq<u8>> {
    if t.len() % 2 == 0 && forall|i: int| 0 <= i < t.len() ==> is_hex_char(#[trigger] t[i]) {
        Some(Seq::new(t.len() / 2, |i: int| (hex_value(t[2 * i]) * 16 + hex_value(t[2 * i + 1])) as u8))
    } else {
        None
    }
}

proof fn lemma_hex_digit(n: u8)
    requires
        n < 16,
    ensures
        is_hex_char(hex_digit(n)),
        hex_value(hex_digit(n)) == n,
{
}

/// Decoding the hexadecimal text of a byte string gives back that byte string.
pub proof fn lemma_hex_round_trip(b: Seq<u8>)
    ensures
        hex_decoded(hex_text(b)) == Some(b),
{
    let t = hex_text(b);
    assert forall|i: int| 0 <= i < t.len() implies is_hex_char(#[trigger] t[i]) by {
        lemma_hex_digit(b[i / 2] / 16);
        lemma_hex_digit(b[i / 2] % 16);
    }
    let d = Seq::new(t.len() / 2, |i: int| (hex_value(t[2 * i]) * 16 + hex_value(t[2 * i + 1])) as u8);
    assert forall|i: int| 0 <= i < b.len() implies #[trigger] d[i] == b[i] by {
        lemma_hex_digit(b[i] / 16);
        lemma_hex_digit(b[i] % 16);
        assert((2 * i) / 2 == i);
        assert((2 * i + 1) / 2 == i);
    }
    assert(d =~= b);
}

fn hex_char(n: u8) -> (r: u8)
    requires
        n < 16,
    ensures
        r == hex_digit(n),
{
    if n < 10 {
        n + 48
    } else {
        n + 87
    }
}

/// The lowercase hexadecimal text of `b`.
pub fn hex_encode(b: &[u8]) -> (r: Vec<u8>)
    requires
        2 * b@.len() <= usize::MAX,
    ensures
        r@ == hex_text(b@),
{
    let mut out: Vec<u8> = Vec::new();
    let mut i: usize = 0;
    while i < b.len()
        invariant
            i <= b@.len(),
            2 * b@.len() <= usize::MAX,
            out@.len() == 2 * i,
            forall|j: int| 0 <= j < 2 * i ==> #[trigger] out@[j] == hex_text(b@)[j],
        decreases b@.len() - i,
    {
        out.push(hex_char(b[i] / 16));
        out.push(hex_char(b[i] % 16));
        proof {
            assert((2 * i as int) / 2 == i as int);
            assert((2 * i as int + 1) / 2 == i as int);
        }
        i = i + 1;
    }
    assert(out@ =~= hex_text(b@));
    out
}

/// The bytes that the hexadecimal text `t` stands for, or `None` when it is not one.
pub fn hex_decode(t: &[u8]) -> (r: Option<Vec<u8>>)
    ensures
        r matches Some(v) ==> hex_decoded(t@) == Some(v@),
        r is None ==> hex_decoded(t@) is None,
{
    if t.len() % 2 != 0 {
        return None;
    }
    let mut out: Vec<u8> = Vec::new();
    let mut i: usize = 0;
    while i < t.len() / 2
        invariant
            t@.len() % 2 == 0,
            i <= t@.len() / 2,
            out@.len() == i,
            forall|j: int| 0 <= j < 2 * i ==> is_hex_char(#[trigger] t@[j]),
            forall|j: int|
                0 <= j < i ==> #[trigger] out@[j] == (hex_value(t@[2 * j]) * 16 + hex_value(t@[2 * j + 1])) as u8,
        decreases t@.len() / 2 - i,
    {
        let hi = t[2 * i];
        let lo = t[2 * i + 1];
        if !((48 <= hi && hi <= 57) || (97 <= hi && hi <= 102)) || !((48 <= lo && lo <= 57) || (97 <= lo && lo <= 102)) {
            return None;
        }
        let hv: u8 = if hi <= 57 { hi - 48 } else { hi - 87 };
        let lv: u8 = if lo <= 57 { lo - 48 } else { lo - 87 };
        out.push(hv * 16 + lv);
        i = i + 1;
    }
    assert(out@ =~= Seq::new(t@.len() / 2, |i: int| (hex_value(t@[2 * i]) * 16 + hex_value(t@[2 * i + 1])) as u8));
    Some(out)
}

/// The eight big-endian bytes of `x`.
pub open spec fn be_bytes(x: u64) -> Seq<u8> {
    seq![
        (x >> 56) as u8,
        (x >> 48) as u8,
        (x >> 40) as u8,
        (x >> 32) as u8,
        (x >> 24) as u8,
        (x >> 16) as u8,
        (x >> 8) as u8,
        x as u8,
    ]
}

/// The number whose big-endian bytes are the first eight of `b`.
pub open spec fn be_value(b: Seq<u8>) -> u64 {
    ((b[0] as u64) << 56) | ((b[1] as u64) << 48) | ((b[2] as u64) << 40) | ((b[3] as u64) << 32)
        | ((b[4] as u64) << 24) | ((b[5] as u64) << 16) | ((b[6] as u64) << 8) | (b[7] as u64)
}

/// Reading back the big-endian bytes of a number gives that number.
pub proof fn lemma_be_round_trip(x: u64)
    ensures
        be_bytes(x).len() == 8,
        be_value(be_bytes(x)) == x,
{
    assert(((((x >> 56) as u8) as u64) << 56) | ((((x >> 48) as u8) as u64) << 48) | ((((x >> 40) as u8) as u64) << 40)
        | ((((x >> 32) as u8) as u64) << 32) | ((((x >> 24) as u8) as u64) << 24) | ((((x >> 16) as u8) as u64) << 16)
        | ((((x >> 8) as u8) as u64) << 8) | ((x as u8) as u64) == x) by (bit_vector);
}

/// The eight big-endian bytes of `x`.
pub fn encode_be(x: u64) -> (r: Vec<u8>)
    ensures
        r@ == be_bytes(x),
{
    let v: Vec<u8> = vec![
        (x >> 56) as u8,
        (x >> 48) as u8,
        (x >> 40) as u8,
        (x >> 32) as u8,
        (x >> 24) as u8,
        (x >> 16) as u8,
        (x >> 8) as u8,
        x as u8,
    ];
    assert(v@ =~= be_bytes(x));
    v
}

/// The number whose big-endian bytes are the first eight of `b`.
pub fn decode_be(b: &[u8]) -> (r: u64)
    requires
        b@.len() >= 8,
    ensures
        r == be_value(b@),
{
    ((b[0] as u64) << 56) | ((b[1] as u64) << 48) | ((b[2] as u64) << 40) | ((b[3] as u64) << 32)
        | ((b[4] as u64) << 24) | ((b[5] as u64) << 16) | ((b[6] as u64) << 8) | (b[7] as u64)
}

/// Byte `j` of decoded text comes from the two digits at `2 * j` and `2 * j + 1`.
pub proof fn lemma_hex_decoded_byte(t: Seq<u8>, d: Seq<u8>, j: int)
    requires
        hex_decoded(t) == Some(d),
        0 <= j < d.len(),
    ensures
        t.len() == 2 * d.len(),
        is_hex_char(t[2 * j]),
        is_hex_char(t[2 * j + 1]),
        d[j] == (hex_value(t[2 * j]) * 16 + hex_value(t[2 * j + 1])) as u8,
{
    assert(is_hex_char(t[2 * j]));
    assert(is_hex_char(t[2 * j + 1]));
}

/// Two pairs of hexadecimal digits that differ stand for different bytes.
pub proof fn lemma_hex_pair_injective(a: u8, b: u8, c: u8, d: u8)
    requires
        is_hex_char(a),
        is_hex_char(b),
        is_hex_char(c),
        is_hex_char(d),
        a != c || b != d,
    ensures
        (hex_value(a) * 16 + hex_value(b)) as u8 != (hex_value(c) * 16 + hex_value(d)) as u8,
{
}

} // verus!
