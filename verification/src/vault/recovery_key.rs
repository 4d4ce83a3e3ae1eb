//! Human-friendly recovery keys: 160 random bits rendered as Crockford base32
//! and grouped into dash-separated blocks of four (`ABCD-EFGH-...`).

use vstd::prelude::*;

use crate::crypto::primitives::fill_random;
use crate::text::push_char;
use vstd::utf8::is_ascii_chars;

verus! {

/// Number of random bytes behind a recovery key (160 bits), which Crockford
/// base32 renders as 32 symbols.
pub const RECOVERY_KEY_BYTES: usize = 20;

/// The Crockford base32 alphabet: digits and upper-case letters without
/// I, L, O and U, which are easily misread.
pub const CROCKFORD_BASE32: [u8; 32] = [
    0x30, 0x31, 0x32, 0x33, 0x34, 0x35, 0x36, 0x37, 0x38, 0x39, 0x41, 0x42, 0x43, 0x44, 0x45, 0x46,
    0x47, 0x48, 0x4A, 0x4B, 0x4D, 0x4E, 0x50, 0x51, 0x52, 0x53, 0x54, 0x56, 0x57, 0x58, 0x59, 0x5A,
];

/// The number of base32 symbols for `n` bytes: one per 5 bits, the last one
/// padded on the right with zero bits.
pub open spec fn base32_len(n: nat) -> nat {
    (8 * n + 4) / 5
}

/// The 5-bit value of symbol `i`: bits `5i .. 5i+5` of `data` read as one
/// big-endian bit string, with zero bits past the end.
pub open spec fn symbol_value(data: Seq<u8>, i: int) -> u32 {
    let byte = (5 * i) / 8;
    let window = ((data[byte] as u32) * 256 + (if byte + 1 < data.len() { data[byte + 1] as u32 } else { 0u32 })) as u32;
    (window >> ((11 - (5 * i) % 8) as u32)) & 31u32
}

/// The Crockford base32 text of `data` (no padding characters).
pub open spec fn base32(data: Seq<u8>) -> Seq<char> {
    Seq::new(base32_len(data.len()), |i: int| CROCKFORD_BASE32@[symbol_value(data, i) as int] as char)
}

/// Encode bytes as Crockford base32, 5 bits per symbol, most significant bit
/// first; a final partial group is padded on the right with zero bits.
pub fn base32_encode(data: &[u8]) -> (r: String)
    requires
        data@.len() * 8 <= usize::MAX,
    ensures
        r@ == base32(data@),
{
    let n = data.len();
    let count = (n * 8 + 4) / 5;
    let mut out = String::new();
    let mut i: usize = 0;
    while i < count
        invariant
            n == data@.len(),
            n * 8 <= usize::MAX,
            count == base32_len(n as nat),
            i <= count,
            out@ == base32(data@).subrange(0, i as int),
        decreases count - i,
    {
        let bit = 5 * i;
        let byte = bit / 8;
        let hi = data[byte] as u32;
        let lo: u32 = if byte + 1 < n { data[byte + 1] as u32 } else { 0 };
        let window = hi * 256 + lo;
        let shift = (11 - bit % 8) as u32;
        let value = (window >> shift) & 31;
        assert(value < 32) by (bit_vector)
            requires
                value == (window >> shift) & 31u32,
        ;
        assert(value == symbol_value(data@, i as int));
        push_char(&mut out, CROCKFORD_BASE32[value as usize] as char);
        i = i + 1;
        assert(out@ =~= base32(data@).subrange(0, i as int));
    }
    assert(base32(data@).subrange(0, count as int) =~= base32(data@));
    out
}

/// `s` with a `-` inserted between consecutive blocks of `size` characters.
pub open spec fn grouped(s: Seq<char>, size: nat) -> Seq<char>
    decreases s.len(),
{
    if size == 0 || s.len() <= size {
        s
    } else {
        s.take(size as int) + seq!['-'] + grouped(s.skip(size as int), size)
    }
}

/// Insert a `-` every `size` characters, to make a long token easier to read
/// and transcribe.
pub fn group_with_dashes(s: &str, size: usize) -> (r: String)
    requires
        size > 0,
    ensures
        r@ == grouped(s@, size as nat),
{
    let v = crate::text::chars_of(s);
    let n = v.len();
    let mut out = String::new();
    let mut c: usize = 0;
    assert(s@.skip(0) =~= s@);
    assert(out@ + Seq::<char>::empty() + grouped(s@, size as nat) =~= grouped(s@, size as nat));
    while c < n
        invariant
            n == v@.len(),
            v@ == s@,
            size > 0,
            c <= n,
            grouped(s@, size as nat) == out@ + (if 0 < c < n { seq!['-'] } else { Seq::empty() })
                + grouped(s@.skip(c as int), size as nat),
        decreases n - c,
    {
        let ghost rest = s@.skip(c as int);
        if c > 0 {
            push_char(&mut out, '-');
        }
        let end: usize = if n - c <= size { n } else { c + size };
        let ghost before = out@;
        let mut k = c;
        while k < end
            invariant
                c <= k <= end,
                end <= n,
                n == v@.len(),
                out@ == before + v@.subrange(c as int, k as int),
            decreases end - k,
        {
            push_char(&mut out, v[k]);
            k = k + 1;
            assert(out@ =~= before + v@.subrange(c as int, k as int));
        }
        proof {
            if n - c <= size {
                assert(rest =~= v@.subrange(c as int, n as int));
                assert(s@.skip(n as int) =~= Seq::<char>::empty());
            } else {
                assert(rest.take(size as int) =~= v@.subrange(c as int, end as int));
                assert(rest.skip(size as int) =~= s@.skip(end as int));
            }
        }
        c = end;
    }
    assert(s@.skip(n as int) =~= Seq::<char>::empty());
    out
}

/// The recovery key text for the random bytes `raw`.
pub open spec fn recovery_key_text(raw: Seq<u8>) -> Seq<char> {
    grouped(base32(raw), 4)
}

/// A fresh recovery key: 20 bytes from the OS CSPRNG, Crockford base32
/// encoded and grouped in blocks of four. The exact string is what the user
/// enters to unlock with the recovery key.
pub fn generate_recovery_key() -> (r: String)
    ensures
        exists|raw: Seq<u8>| raw.len() == 20 && r@ == #[trigger] recovery_key_text(raw),
        r@.len() == 39,
        is_ascii_chars(r@),
{
    let mut raw = [0u8; 20];
    fill_random(&mut raw);
    let encoded = base32_encode(raw.as_slice());
    let r = group_with_dashes(encoded.as_str(), 4);
    assert(r@ == recovery_key_text(raw@));
    proof {
        lemma_recovery_key_shape(raw@);
        assert forall|j: int| 0 <= j < r@.len() implies '\0' <= #[trigger] r@[j] <= '\u{7f}' by {
            if j % 5 != 4 {
                let k = choose|k: int| 0 <= k < 32 && recovery_key_text(raw@)[j] == CROCKFORD_BASE32@[k] as char;
                lemma_alphabet_has_no_dash(k);
            }
        }
    }
    r
}

/// The blocks of a grouped text whose length is a multiple of four: the
/// characters at positions `5k + 4` are dashes and the others are, in
/// order, the characters of the text.
proof fn lemma_grouped_blocks(s: Seq<char>, m: nat)
    requires
        m >= 1,
        s.len() == 4 * m,
    ensures
        grouped(s, 4).len() == 5 * m - 1,
        forall|j: int| 0 <= j < 5 * m - 1 ==> #[trigger] grouped(s, 4)[j]
            == if j % 5 == 4 { '-' } else { s[j - j / 5] },
    decreases m,
{
    if m > 1 {
        let t = s.skip(4);
        lemma_grouped_blocks(t, (m - 1) as nat);
        let g = grouped(s, 4);
        assert(g == s.take(4) + seq!['-'] + grouped(t, 4));
        assert forall|j: int| 0 <= j < 5 * m - 1 implies #[trigger] g[j]
            == if j % 5 == 4 { '-' } else { s[j - j / 5] } by {
            if j >= 5 {
                assert(g[j] == grouped(t, 4)[j - 5]);
                assert((j - 5) % 5 == j % 5);
                assert((j - 5) / 5 == j / 5 - 1);
            }
        }
    }
}

/// The shape of every recovery key: 39 characters, eight blocks of four
/// Crockford base32 symbols separated by dashes.
pub proof fn lemma_recovery_key_shape(raw: Seq<u8>)
    requires
        raw.len() == 20,
    ensures
        recovery_key_text(raw).len() == 39,
        forall|j: int| 0 <= j < 39 ==> (j % 5 == 4 <==> #[trigger] recovery_key_text(raw)[j] == '-'),
        forall|j: int| 0 <= j < 39 && j % 5 != 4 ==> exists|k: int| 0 <= k < 32
            && #[trigger] recovery_key_text(raw)[j] == CROCKFORD_BASE32@[k] as char,
{
    let b = base32(raw);
    assert(b.len() == 32);
    lemma_grouped_blocks(b, 8);
    assert forall|j: int| 0 <= j < 39 implies (j % 5 == 4 <==> #[trigger] recovery_key_text(raw)[j] == '-') by {
        if j % 5 != 4 {
            let i = j - j / 5;
            lemma_low_five_bits(symbol_value(raw, i));
            lemma_alphabet_has_no_dash(symbol_value(raw, i) as int);
        }
    }
    assert forall|j: int| 0 <= j < 39 && j % 5 != 4 implies exists|k: int| 0 <= k < 32
        && #[trigger] recovery_key_text(raw)[j] == CROCKFORD_BASE32@[k] as char by {
        let i = j - j / 5;
        lemma_low_five_bits(symbol_value(raw, i));
        assert(recovery_key_text(raw)[j] == CROCKFORD_BASE32@[symbol_value(raw, i) as int] as char);
    }
}

/// A value masked to its low five bits is below 32.
proof fn lemma_low_five_bits(v: u32)
    requires
        exists|x: u32| v == x & 31u32,
    ensures
        v < 32,
{
    let x = choose|x: u32| v == x & 31u32;
    assert(x & 31u32 < 32) by (bit_vector);
}

/// No symbol of the alphabet is a dash.
proof fn lemma_alphabet_has_no_dash(k: int)
    requires
        0 <= k < 32,
    ensures
        CROCKFORD_BASE32@[k] as char != '-',
        0x30 <= CROCKFORD_BASE32@[k] <= 0x5A,
{
    assert(CROCKFORD_BASE32@ =~= seq![
        0x30u8, 0x31, 0x32, 0x33, 0x34, 0x35, 0x36, 0x37, 0x38, 0x39, 0x41, 0x42, 0x43, 0x44, 0x45, 0x46,
        0x47, 0x48, 0x4A, 0x4B, 0x4D, 0x4E, 0x50, 0x51, 0x52, 0x53, 0x54, 0x56, 0x57, 0x58, 0x59, 0x5A,
    ]);
}

} // verus!
