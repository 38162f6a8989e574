use vstd::prelude::*;

verus! {

/// The unsigned 32-bit number that the four bytes of `b` from `at` on hold,
/// least significant byte first.
#[verifier::opaque]
pub open spec fn u32_le(b: Seq<u8>, at: int) -> u32 {
    (b[at] as int + 256 * (b[at + 1] as int) + 65536 * (b[at + 2] as int) + 16777216 * (b[at
        + 3] as int)) as u32
}

/// The four bytes that hold `v`, least significant byte first.
pub open spec fn le_bytes(v: u32) -> Seq<u8> {
    seq![
        (v as int % 256) as u8,
        (v as int / 256 % 256) as u8,
        (v as int / 65536 % 256) as u8,
        (v as int / 16777216) as u8,
    ]
}

/// `b` with the bytes from `at` on replaced by `src`; the length of `b` stays.
pub open spec fn splice(b: Seq<u8>, at: int, src: Seq<u8>) -> Seq<u8> {
    Seq::new(
        b.len(),
        |i: int|
            if at <= i < at + src.len() {
                src[i - at]
            } else {
                b[i]
            },
    )
}

/// `b` with the number `v` stored in the four bytes from `at` on.
pub open spec fn put_u32_le(b: Seq<u8>, at: int, v: u32) -> Seq<u8> {
    splice(b, at, le_bytes(v))
}

/// What holds of `b` when it is `a` with `src` written from `at` on: the
/// written bytes read back, and every byte and every stored number clear of
/// them is as it was.
pub open spec fn spliced(a: Seq<u8>, b: Seq<u8>, at: int, src: Seq<u8>) -> bool {
    &&& b == splice(a, at, src)
    &&& b.len() == a.len()
    &&& forall|i: int| at <= i < at + src.len() ==> #[trigger] b[i] == src[i - at]
    &&& forall|i: int| 0 <= i < a.len() && !(at <= i < at + src.len()) ==> #[trigger] b[i] == a[i]
    &&& forall|q: int|
        0 <= q && q + 4 <= a.len() && (q + 4 <= at || at + src.len() <= q) ==> #[trigger] u32_le(
            b,
            q,
        ) == u32_le(a, q)
}

/// What holds of `b` when it is `a` with the number `v` stored at `at`: the
/// number reads back, and every byte and every stored number clear of its
/// four bytes is as it was.
pub open spec fn stored(a: Seq<u8>, b: Seq<u8>, at: int, v: u32) -> bool {
    &&& b == put_u32_le(a, at, v)
    &&& b.len() == a.len()
    &&& u32_le(b, at) == v
    &&& forall|i: int| 0 <= i < a.len() && !(at <= i < at + 4) ==> #[trigger] b[i] == a[i]
    &&& forall|q: int|
        0 <= q && q + 4 <= a.len() && (q + 4 <= at || at + 4 <= q) ==> #[trigger] u32_le(b, q)
            == u32_le(a, q)
}

/// Decoding the encoding of a number gives the number back.
pub proof fn lemma_le_bytes_round_trip(v: u32)
    ensures
        le_bytes(v).len() == 4,
        u32_le(le_bytes(v), 0) == v,
{
    reveal(u32_le);
}

/// A number reads the same from two byte strings that hold the same four
/// bytes where it stands.
pub proof fn lemma_u32_le_same(a: Seq<u8>, b: Seq<u8>, at: int)
    requires
        a[at] == b[at],
        a[at + 1] == b[at + 1],
        a[at + 2] == b[at + 2],
        a[at + 3] == b[at + 3],
    ensures
        u32_le(a, at) == u32_le(b, at),
{
    reveal(u32_le);
}

/// A number reads the same from two places that hold the same four bytes.
pub proof fn lemma_u32_le_moved(a: Seq<u8>, p: int, b: Seq<u8>, q: int)
    requires
        a[p] == b[q],
        a[p + 1] == b[q + 1],
        a[p + 2] == b[q + 2],
        a[p + 3] == b[q + 3],
    ensures
        u32_le(a, p) == u32_le(b, q),
{
    reveal(u32_le);
}

/// Writing bytes changes nothing clear of them.
pub proof fn lemma_splice(b: Seq<u8>, at: int, src: Seq<u8>)
    requires
        0 <= at,
        at + src.len() <= b.len(),
    ensures
        spliced(b, splice(b, at, src), at, src),
{
    let c = splice(b, at, src);
    assert forall|q: int|
        0 <= q && q + 4 <= b.len() && (q + 4 <= at || at + src.len() <= q) implies #[trigger] u32_le(
        c,
        q,
    ) == u32_le(b, q) by {
        lemma_u32_le_same(c, b, q);
    }
}

/// A stored number reads back, and the store changes nothing clear of its
/// four bytes.
pub proof fn lemma_put_u32_le(b: Seq<u8>, at: int, v: u32)
    requires
        0 <= at,
        at + 4 <= b.len(),
    ensures
        stored(b, put_u32_le(b, at, v), at, v),
{
    let c = put_u32_le(b, at, v);
    lemma_splice(b, at, le_bytes(v));
    assert(u32_le(c, at) == v) by {
        reveal(u32_le);
    }
}

/// Reads the number stored little-endian at `at`.
pub fn read_u32_le(b: &[u8], at: usize) -> (v: u32)
    requires
        at + 4 <= b@.len(),
    ensures
        v == u32_le(b@, at as int),
{
    proof {
        reveal(u32_le);
    }
    let b0: u32 = b[at] as u32;
    let b1: u32 = b[at + 1] as u32;
    let b2: u32 = b[at + 2] as u32;
    let b3: u32 = b[at + 3] as u32;
    b0 + 256 * b1 + 65536 * b2 + 16777216 * b3
}

/// The four bytes of `v`, least significant first.
pub fn encode_u32_le(v: u32) -> (r: [u8; 4])
    ensures
        r@ == le_bytes(v),
{
    let r: [u8; 4] = [
        (v % 256) as u8,
        (v / 256 % 256) as u8,
        (v / 65536 % 256) as u8,
        (v / 16777216) as u8,
    ];
    assert(r@ =~= le_bytes(v));
    r
}

} // verus!
