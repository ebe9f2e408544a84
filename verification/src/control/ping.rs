//! The Minecraft server-list ping: the player count without a plugin or RCON. The socket
//! is the caller's; the bytes sent and the reading of the bytes received are here.

use vstd::prelude::*;

verus! {

/// Protocol varint: 7 bits per byte, least significant group first, the high bit set on
/// every byte but the last.
pub open spec fn varint_spec(n: nat) -> Seq<u8>
    decreases n,
{
    if n < 128 {
        seq![n as u8]
    } else {
        seq![((n % 128) + 128) as u8] + varint_spec(n / 128)
    }
}

pub open spec fn pow128(k: nat) -> nat
    decreases k,
{
    if k == 0 { 1 } else { 128 * pow128((k - 1) as nat) }
}

/// Reading a varint of at most `k` bytes from the front of `b`: its value and length.
pub open spec fn varint_read(b: Seq<u8>, k: nat) -> Option<(nat, nat)>
    decreases k,
{
    if k == 0 || b.len() == 0 {
        None
    } else if b[0] < 128 {
        Some((b[0] as nat, 1))
    } else {
        match varint_read(b.drop_first(), (k - 1) as nat) {
            Some((v, c)) => Some(((b[0] - 128) as nat + 128 * v, c + 1)),
            None => None,
        }
    }
}

pub fn varint(n: u32) -> (r: Vec<u8>)
    ensures
        r@ == varint_spec(n as nat),
{
    let mut out: Vec<u8> = Vec::new();
    let mut m: u32 = n;
    while m >= 128
        invariant
            out@ + varint_spec(m as nat) == varint_spec(n as nat),
        decreases m,
    {
        let b: u8 = ((m % 128) + 128) as u8;
        let ghost before = out@;
        out.push(b);
        assert(varint_spec(m as nat) == seq![b] + varint_spec((m / 128) as nat));
        m = m / 128;
        assert(out@ + varint_spec(m as nat) =~= before + (seq![b] + varint_spec(m as nat)));
    }
    out.push(m as u8);
    assert(out@ =~= varint_spec(n as nat));
    out
}

/// A packet: the payload's length as a varint, then the payload.
pub fn packet(payload: &[u8]) -> (r: Vec<u8>)
    requires
        payload@.len() <= u32::MAX,
    ensures
        r@ == varint_spec(payload@.len()) + payload@,
{
    let mut p = varint(payload.len() as u32);
    let ghost start = p@;
    let mut i: usize = 0;
    while i < payload.len()
        invariant
            i <= payload@.len(),
            p@ == start + payload@.take(i as int),
        decreases payload@.len() - i,
    {
        p.push(payload[i]);
        i = i + 1;
        assert(p@ =~= start + payload@.take(i as int));
    }
    assert(payload@.take(payload@.len() as int) =~= payload@);
    p
}

/// The handshake packet for a status ping of `127.0.0.1:port` (protocol 770, next state 1).
pub open spec fn handshake_spec(port: u16) -> Seq<u8> {
    let host = seq![49u8, 50u8, 55u8, 46u8, 48u8, 46u8, 48u8, 46u8, 49u8];
    let body = seq![0u8] + varint_spec(770) + varint_spec(9) + host + seq![(port / 256) as u8, (port % 256) as u8] + seq![1u8];
    varint_spec(body.len()) + body
}

pub fn handshake(port: u16) -> (r: Vec<u8>)
    ensures
        r@ == handshake_spec(port),
{
    let mut hs: Vec<u8> = Vec::new();
    hs.push(0);
    let a = varint(770);
    let b = varint(9);
    let mut i: usize = 0;
    while i < a.len()
        invariant
            i <= a@.len(),
            hs@ == seq![0u8] + a@.take(i as int),
        decreases a@.len() - i,
    {
        hs.push(a[i]);
        i = i + 1;
        assert(hs@ =~= seq![0u8] + a@.take(i as int));
    }
    assert(a@.take(a@.len() as int) =~= a@);
    let ghost h1 = hs@;
    let mut j: usize = 0;
    while j < b.len()
        invariant
            j <= b@.len(),
            hs@ == h1 + b@.take(j as int),
        decreases b@.len() - j,
    {
        hs.push(b[j]);
        j = j + 1;
        assert(hs@ =~= h1 + b@.take(j as int));
    }
    assert(b@.take(b@.len() as int) =~= b@);
    let host: [u8; 9] = [49, 50, 55, 46, 48, 46, 48, 46, 49];
    let ghost h2 = hs@;
    let mut k: usize = 0;
    while k < 9
        invariant
            k <= 9,
            host@ == seq![49u8, 50u8, 55u8, 46u8, 48u8, 46u8, 48u8, 46u8, 49u8],
            hs@ == h2 + host@.take(k as int),
        decreases 9 - k,
    {
        hs.push(host[k]);
        k = k + 1;
        assert(hs@ =~= h2 + host@.take(k as int));
    }
    assert(host@.take(9) =~= host@);
    hs.push((port / 256) as u8);
    hs.push((port % 256) as u8);
    hs.push(1);
    let ghost body = seq![0u8] + varint_spec(770) + varint_spec(9) + seq![49u8, 50u8, 55u8, 46u8, 48u8, 46u8, 48u8, 46u8, 49u8]
        + seq![(port / 256) as u8, (port % 256) as u8] + seq![1u8];
    assert(hs@ =~= body);
    assert(varint_spec(770).len() == 2 && varint_spec(9).len() == 1) by {
        reveal_with_fuel(varint_spec, 3);
    }
    assert(hs@.len() == 16);
    packet(hs.as_slice())
}

/// The status request that follows the handshake.
pub fn status_request() -> (r: Vec<u8>)
    ensures
        r@ == seq![1u8, 0u8],
{
    let body: [u8; 1] = [0];
    let r = packet(body.as_slice());
    assert(varint_spec(1) == seq![1u8]);
    assert(r@ =~= seq![1u8, 0u8]);
    r
}

fn read_at(b: &[u8], at: usize, k: u32) -> (r: Option<(u64, usize)>)
    requires
        at <= b@.len(),
        k <= 5,
    ensures
        match varint_read(b@.skip(at as int), k as nat) {
            Some((v, c)) => r matches Some((x, y)) && x == v && y == c && v < pow128(k as nat) && c <= k,
            None => r is None,
        },
    decreases k,
{
    if k == 0 || at >= b.len() {
        return None;
    }
    let x = b[at];
    assert(b@.skip(at as int)[0] == x);
    if x < 128 {
        assert(pow128(k as nat) >= 128) by {
            assert(pow128(1) == 128) by {
                reveal_with_fuel(pow128, 2);
            }
            lemma_pow128_mono(1, k as nat);
        }
        return Some((x as u64, 1));
    }
    assert(b@.skip(at as int).drop_first() =~= b@.skip(at + 1));
    match read_at(b, at + 1, k - 1) {
        Some((v, c)) => {
            assert(pow128((k - 1) as nat) <= pow128(4)) by {
                lemma_pow128_mono((k - 1) as nat, 4);
            }
            assert(pow128(4) == 268435456) by {
                reveal_with_fuel(pow128, 5);
            }
            Some(((x - 128) as u64 + 128 * v, c + 1))
        },
        None => None,
    }
}

proof fn lemma_pow128_mono(a: nat, b: nat)
    requires
        a <= b,
    ensures
        pow128(a) <= pow128(b),
    decreases b,
{
    if a < b {
        lemma_pow128_mono(a, (b - 1) as nat);
    }
}

/// Reads a varint of at most five bytes from the front of `b`; the value is kept to its
/// low 32 bits, as a `u32` accumulator keeps it.
pub fn read_varint(b: &[u8]) -> (r: Option<(u32, usize)>)
    ensures
        match varint_read(b@, 5) {
            Some((v, c)) => r matches Some((x, y)) && x == v % 4294967296 && y == c,
            None => r is None,
        },
{
    assert(b@.skip(0) =~= b@);
    match read_at(b, 0, 5) {
        Some((v, c)) => Some(((v % 4294967296) as u32, c)),
        None => None,
    }
}

/// Reading back an encoded varint gives the number and the length of its encoding.
pub proof fn lemma_varint_roundtrip(n: nat, k: nat)
    requires
        k > 0,
        n < pow128(k),
    ensures
        varint_read(varint_spec(n), k) == Some((n, varint_spec(n).len())),
    decreases n,
{
    if n >= 128 {
        let rest = varint_spec(n / 128);
        assert(k > 1) by {
            if k == 1 {
                reveal_with_fuel(pow128, 2);
            }
        }
        assert(n / 128 < pow128((k - 1) as nat)) by (nonlinear_arith)
            requires
                n < 128 * pow128((k - 1) as nat),
        ;
        lemma_varint_roundtrip(n / 128, (k - 1) as nat);
        assert(varint_spec(n).drop_first() =~= rest);
        assert(((n % 128) + 128) as u8 == (n % 128) + 128);
        assert(n == n % 128 + 128 * (n / 128)) by (nonlinear_arith);
    }
}

/// Any `u32` round-trips through a varint of at most five bytes.
pub proof fn lemma_varint_u32(n: u32)
    ensures
        varint_read(varint_spec(n as nat), 5) == Some((n as nat, varint_spec(n as nat).len())),
{
    assert(pow128(5) == 34359738368) by {
        reveal_with_fuel(pow128, 6);
    }
    lemma_varint_roundtrip(n as nat, 5);
}

proof fn lemma_varint_prefix(n: nat, k: nat, rest: Seq<u8>)
    requires
        k > 0,
        n < pow128(k),
    ensures
        varint_read(varint_spec(n) + rest, k) == Some((n, varint_spec(n).len())),
    decreases n,
{
    if n >= 128 {
        let tail = varint_spec(n / 128);
        assert(k > 1) by {
            if k == 1 {
                reveal_with_fuel(pow128, 2);
            }
        }
        assert(n / 128 < pow128((k - 1) as nat)) by (nonlinear_arith)
            requires
                n < 128 * pow128((k - 1) as nat),
        ;
        lemma_varint_prefix(n / 128, (k - 1) as nat, rest);
        assert((varint_spec(n) + rest).drop_first() =~= tail + rest);
        assert(((n % 128) + 128) as u8 == (n % 128) + 128);
        assert(n == n % 128 + 128 * (n / 128)) by (nonlinear_arith);
    } else {
        assert((varint_spec(n) + rest)[0] == n as u8);
    }
}

/// Reading a varint from bytes that begin with the encoding of a `u32` gives that number
/// and the length of its encoding, whatever bytes follow.
pub proof fn lemma_read_varint_prefix(n: u32, rest: Seq<u8>)
    ensures
        varint_read(varint_spec(n as nat) + rest, 5) == Some((n as nat, varint_spec(n as nat).len())),
{
    assert(pow128(5) == 34359738368) by {
        reveal_with_fuel(pow128, 6);
    }
    lemma_varint_prefix(n as nat, 5, rest);
}

/// Bytes that all carry the continuation bit, as far as the limit or their end, are no
/// varint: five such bytes are too long, fewer that end the input are cut short.
pub proof fn lemma_varint_unfinished(b: Seq<u8>, k: nat)
    requires
        forall|i: int| 0 <= i < b.len() && i < k ==> #[trigger] b[i] >= 128,
    ensures
        varint_read(b, k) is None,
    decreases k,
{
    if k > 0 && b.len() > 0 {
        assert(b[0] >= 128);
        assert forall|i: int| 0 <= i < b.drop_first().len() && i < k - 1 implies #[trigger] b.drop_first()[i] >= 128 by {
            assert(b.drop_first()[i] == b[i + 1]);
        }
        lemma_varint_unfinished(b.drop_first(), (k - 1) as nat);
    }
}

} // verus!
