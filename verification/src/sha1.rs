//! SHA-1 (FIPS 180-4) over byte strings, as used by the WebSocket handshake.

use vstd::prelude::*;

verus! {

/// The five working words of the hash state.
pub type Sha1State = (u32, u32, u32, u32, u32);

/// Initial hash value H(0).
pub open spec fn sha1_init() -> Sha1State {
    (0x67452301u32, 0xEFCDAB89u32, 0x98BADCFEu32, 0x10325476u32, 0xC3D2E1F0u32)
}

/// Circular left rotation of a 32-bit word by `n` bits, `0 < n < 32`.
pub open spec fn rotl(x: u32, n: u32) -> u32 {
    (x << n) | (x >> ((32 - n) as u32))
}

/// Big-endian 32-bit word made of `b[i..i + 4]`.
pub open spec fn word_be(b: Seq<u8>, i: int) -> u32 {
    ((b[i] as u32) << 24u32) | ((b[i + 1] as u32) << 16u32) | ((b[i + 2] as u32) << 8u32) | (
    b[i + 3] as u32)
}

/// Message schedule word `W[t]` of a 64-byte block.
pub open spec fn schedule(block: Seq<u8>, t: nat) -> u32
    decreases t,
{
    if t < 16 {
        word_be(block, (4 * t) as int)
    } else {
        rotl(
            schedule(block, (t - 3) as nat) ^ schedule(block, (t - 8) as nat) ^ schedule(
                block,
                (t - 14) as nat,
            ) ^ schedule(block, (t - 16) as nat),
            1,
        )
    }
}

/// Round function and constant for round `t`.
pub open spec fn round_fk(t: nat, b: u32, c: u32, d: u32) -> (u32, u32) {
    if t < 20 {
        ((b & c) | (!b & d), 0x5A827999u32)
    } else if t < 40 {
        (b ^ c ^ d, 0x6ED9EBA1u32)
    } else if t < 60 {
        ((b & c) | (b & d) | (c & d), 0x8F1BBCDCu32)
    } else {
        (b ^ c ^ d, 0xCA62C1D6u32)
    }
}

/// One round of the compression function.
pub open spec fn round_step(s: Sha1State, t: nat, w: u32) -> Sha1State {
    let (a, b, c, d, e) = s;
    let (f, k) = round_fk(t, b, c, d);
    let temp = rotl(a, 5).wrapping_add(f).wrapping_add(e).wrapping_add(k).wrapping_add(w);
    (temp, a, rotl(b, 30), c, d)
}

/// The working variables after the first `t` rounds over `block`.
pub open spec fn rounds(h: Sha1State, block: Seq<u8>, t: nat) -> Sha1State
    decreases t,
{
    if t == 0 {
        h
    } else {
        round_step(rounds(h, block, (t - 1) as nat), (t - 1) as nat, schedule(block, (t - 1) as nat))
    }
}

/// The compression function: the state after absorbing one 64-byte block.
pub open spec fn compress(h: Sha1State, block: Seq<u8>) -> Sha1State {
    let r = rounds(h, block, 80);
    (
        h.0.wrapping_add(r.0),
        h.1.wrapping_add(r.1),
        h.2.wrapping_add(r.2),
        h.3.wrapping_add(r.3),
        h.4.wrapping_add(r.4),
    )
}

/// Number of zero bytes placed after the `0x80` marker for a message of `n` bytes.
pub open spec fn pad_zero_count(n: nat) -> nat {
    ((119 - (n % 64) as int) % 64) as nat
}

/// Big-endian bytes of a 64-bit value.
pub open spec fn u64_be_bytes(x: u64) -> Seq<u8> {
    seq![
        (x >> 56u64) as u8,
        (x >> 48u64) as u8,
        (x >> 40u64) as u8,
        (x >> 32u64) as u8,
        (x >> 24u64) as u8,
        (x >> 16u64) as u8,
        (x >> 8u64) as u8,
        x as u8,
    ]
}

/// Big-endian bytes of a 32-bit value.
pub open spec fn u32_be_bytes(x: u32) -> Seq<u8> {
    seq![(x >> 24u32) as u8, (x >> 16u32) as u8, (x >> 8u32) as u8, x as u8]
}

/// The padded message: `m`, a `0x80` byte, zeros, and the bit length as 64-bit big-endian.
pub open spec fn sha1_padded(m: Seq<u8>) -> Seq<u8> {
    m + seq![0x80u8] + Seq::new(pad_zero_count(m.len()), |i: int| 0u8) + u64_be_bytes(
        (m.len() * 8) as u64,
    )
}

/// The state after absorbing the first `n` blocks of `p`.
pub open spec fn absorb(p: Seq<u8>, n: nat) -> Sha1State
    decreases n,
{
    if n == 0 {
        sha1_init()
    } else {
        compress(absorb(p, (n - 1) as nat), p.subrange(64 * (n - 1), (64 * n) as int))
    }
}

/// The 20-byte digest of a final state.
pub open spec fn state_bytes(h: Sha1State) -> Seq<u8> {
    u32_be_bytes(h.0) + u32_be_bytes(h.1) + u32_be_bytes(h.2) + u32_be_bytes(h.3) + u32_be_bytes(
        h.4,
    )
}

/// SHA-1 digest of `m`.
pub open spec fn sha1_spec(m: Seq<u8>) -> Seq<u8> {
    let p = sha1_padded(m);
    state_bytes(absorb(p, p.len() / 64))
}

fn rotl_exec(x: u32, n: u32) -> (r: u32)
    requires
        0 < n < 32,
    ensures
        r == rotl(x, n),
{
    (x << n) | (x >> (32 - n))
}

/// Pads `data` as SHA-1 requires.
fn pad_message(data: &[u8]) -> (msg: Vec<u8>)
    requires
        data@.len() * 8 <= u64::MAX,
    ensures
        msg@ == sha1_padded(data@),
        msg@.len() % 64 == 0,
{
    let mut msg = vstd::slice::slice_to_vec(data);
    msg.push(0x80u8);
    let ghost n = data@.len();
    let ghost zc = pad_zero_count(n);
    let mut j: usize = 0;
    assert(msg@ == data@ + seq![0x80u8] + Seq::new(0, |i: int| 0u8));
    while msg.len() % 64 != 56
        invariant
            j <= zc,
            msg@ == data@ + seq![0x80u8] + Seq::new(j as nat, |i: int| 0u8),
            n == data@.len(),
            zc == pad_zero_count(n),
            n * 8 <= u64::MAX,
        decreases zc - j,
    {
        msg.push(0u8);
        j = j + 1;
        assert(msg@ == data@ + seq![0x80u8] + Seq::new(j as nat, |i: int| 0u8));
    }
    assert(j == zc);
    let bl: u64 = (data.len() as u64) * 8;
    let ghost before = msg@;
    msg.push((bl >> 56u64) as u8);
    msg.push((bl >> 48u64) as u8);
    msg.push((bl >> 40u64) as u8);
    msg.push((bl >> 32u64) as u8);
    msg.push((bl >> 24u64) as u8);
    msg.push((bl >> 16u64) as u8);
    msg.push((bl >> 8u64) as u8);
    msg.push(bl as u8);
    assert(msg@ == before + u64_be_bytes(bl));
    msg
}

/// Computes the message schedule of the block `msg[off..off + 64]`.
fn schedule_block(msg: &Vec<u8>, off: usize) -> (w: Vec<u32>)
    requires
        off + 64 <= msg@.len(),
    ensures
        w@.len() == 80,
        forall|t: int|
            0 <= t < 80 ==> #[trigger] w@[t] == schedule(
                msg@.subrange(off as int, off + 64),
                t as nat,
            ),
{
    let ghost block = msg@.subrange(off as int, off + 64);
    let mut w: Vec<u32> = vec![0u32; 80];
    let mut i: usize = 0;
    while i < 16
        invariant
            i <= 16,
            w@.len() == 80,
            off + 64 <= msg@.len(),
            off + 64 <= msg.len(),
            block == msg@.subrange(off as int, off + 64),
            forall|t: int| 0 <= t < i ==> #[trigger] w@[t] == schedule(block, t as nat),
        decreases 16 - i,
    {
        let p = off + 4 * i;
        let word = ((msg[p] as u32) << 24u32) | ((msg[p + 1] as u32) << 16u32) | ((msg[p + 2]
            as u32) << 8u32) | (msg[p + 3] as u32);
        assert(word == word_be(block, 4 * i as int));
        w.set(i, word);
        i = i + 1;
    }
    while i < 80
        invariant
            16 <= i <= 80,
            w@.len() == 80,
            forall|t: int| 0 <= t < i ==> #[trigger] w@[t] == schedule(block, t as nat),
        decreases 80 - i,
    {
        let x = w[i - 3] ^ w[i - 8] ^ w[i - 14] ^ w[i - 16];
        let v = rotl_exec(x, 1);
        assert(v == schedule(block, i as nat)) by {
            assert(w@[i - 3] == schedule(block, (i - 3) as nat));
            assert(w@[i - 8] == schedule(block, (i - 8) as nat));
            assert(w@[i - 14] == schedule(block, (i - 14) as nat));
            assert(w@[i - 16] == schedule(block, (i - 16) as nat));
        }
        w.set(i, v);
        i = i + 1;
    }
    w
}

/// Applies the compression function to `h` and the block `msg[off..off + 64]`.
fn compress_block(h: Sha1State, msg: &Vec<u8>, off: usize) -> (r: Sha1State)
    requires
        off + 64 <= msg@.len(),
    ensures
        r == compress(h, msg@.subrange(off as int, off + 64)),
{
    let ghost block = msg@.subrange(off as int, off + 64);
    let w = schedule_block(msg, off);
    let (mut a, mut b, mut c, mut d, mut e) = h;
    let mut i: usize = 0;
    while i < 80
        invariant
            i <= 80,
            w@.len() == 80,
            forall|t: int| 0 <= t < 80 ==> #[trigger] w@[t] == schedule(block, t as nat),
            (a, b, c, d, e) == rounds(h, block, i as nat),
        decreases 80 - i,
    {
        let (f, k) = if i < 20 {
            ((b & c) | (!b & d), 0x5A827999u32)
        } else if i < 40 {
            (b ^ c ^ d, 0x6ED9EBA1u32)
        } else if i < 60 {
            ((b & c) | (b & d) | (c & d), 0x8F1BBCDCu32)
        } else {
            (b ^ c ^ d, 0xCA62C1D6u32)
        };
        assert((f, k) == round_fk(i as nat, b, c, d));
        let t = rotl_exec(a, 5).wrapping_add(f).wrapping_add(e).wrapping_add(k).wrapping_add(w[i]);
        e = d;
        d = c;
        c = rotl_exec(b, 30);
        b = a;
        a = t;
        i = i + 1;
    }
    (
        h.0.wrapping_add(a),
        h.1.wrapping_add(b),
        h.2.wrapping_add(c),
        h.3.wrapping_add(d),
        h.4.wrapping_add(e),
    )
}

/// SHA-1 digest of `data`.
pub fn sha1(data: &[u8]) -> (r: [u8; 20])
    requires
        data@.len() * 8 <= u64::MAX,
    ensures
        r@ == sha1_spec(data@),
{
    let msg = pad_message(data);
    let ghost p = msg@;
    let nblocks = msg.len() / 64;
    let mut h: Sha1State = (0x67452301u32, 0xEFCDAB89u32, 0x98BADCFEu32, 0x10325476u32, 0xC3D2E1F0u32);
    let mut k: usize = 0;
    let mut off: usize = 0;
    while k < nblocks
        invariant
            p == msg@,
            p.len() % 64 == 0,
            nblocks == p.len() / 64,
            k <= nblocks,
            off == 64 * k,
            h == absorb(p, k as nat),
        decreases nblocks - k,
    {
        assert(off + 64 <= p.len());
        assert(off + 64 <= msg.len());
        h = compress_block(h, &msg, off);
        k = k + 1;
        off = off + 64;
    }
    let (h0, h1, h2, h3, h4) = h;
    let r = [
        (h0 >> 24u32) as u8, (h0 >> 16u32) as u8, (h0 >> 8u32) as u8, h0 as u8,
        (h1 >> 24u32) as u8, (h1 >> 16u32) as u8, (h1 >> 8u32) as u8, h1 as u8,
        (h2 >> 24u32) as u8, (h2 >> 16u32) as u8, (h2 >> 8u32) as u8, h2 as u8,
        (h3 >> 24u32) as u8, (h3 >> 16u32) as u8, (h3 >> 8u32) as u8, h3 as u8,
        (h4 >> 24u32) as u8, (h4 >> 16u32) as u8, (h4 >> 8u32) as u8, h4 as u8,
    ];
    assert(r@ =~= state_bytes(h));
    r
}

/// Every block of the padded message is absorbed: for every `n`, the state after
/// `n + 1` blocks is block `n` compressed into the state after `n` blocks.
pub proof fn lemma_absorb_step(p: Seq<u8>, n: nat)
    ensures
        absorb(p, n + 1) == compress(absorb(p, n), p.subrange((64 * n) as int, (64 * n + 64) as int)),
{
    assert((n + 1) - 1 == n);
}

/// The digest is the final state of a chain that starts at H(0) and compresses the
/// padded message's blocks one after another, the last block included.
pub proof fn lemma_digest_chains_all_blocks(m: Seq<u8>)
    ensures
        ({
            let p = sha1_padded(m);
            let n = p.len() / 64;
            &&& n >= 1
            &&& absorb(p, 0) == sha1_init()
            &&& sha1_spec(m) == state_bytes(
                compress(absorb(p, (n - 1) as nat), p.subrange(64 * (n - 1), (64 * n) as int)),
            )
        }),
{
    let p = sha1_padded(m);
    assert(p.len() >= 1);
    assert(p.len() == m.len() + 1 + pad_zero_count(m.len()) + 8);
    assert(p.len() >= 64) by {
        assert(m.len() % 64 < 64);
    }
    let n = p.len() / 64;
    lemma_absorb_step(p, (n - 1) as nat);
}
} // verus!
