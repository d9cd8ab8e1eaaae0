use vstd::prelude::*;

verus! {

/// The bytes of `data` split into 4-bit halves, low half first: what is kept
/// in text storage, since bytes below 16 are ASCII and so valid UTF-8.
pub open spec fn nibbles(data: Seq<u8>) -> Seq<u8> {
    Seq::new(2 * data.len(), |i: int| if i % 2 == 0 { data[i / 2] & 0x0Fu8 } else { (data[i / 2] & 0xF0u8) >> 4u8 })
}

/// The bytes whose halves are the pairs of `halves`, low half first (each high
/// half shifted left by 4 within a byte).
pub open spec fn joined_nibbles(halves: Seq<u8>) -> Seq<u8> {
    Seq::new(halves.len() / 2, |i: int| halves[2 * i] | ((halves[2 * i + 1] << 4u8) as u8))
}

/// Splits each byte of `data` into its low and high 4-bit halves, in that order.
pub fn encode_nibbles(data: &[u8]) -> (r: Vec<u8>)
    requires
        2 * data@.len() <= usize::MAX,
    ensures
        r@ == nibbles(data@),
        forall|i: int| 0 <= i < r@.len() ==> #[trigger] r@[i] < 16,
{
    let mut out: Vec<u8> = Vec::with_capacity(data.len() * 2);
    let mut i: usize = 0;
    while i < data.len()
        invariant
            i <= data@.len(),
            out@ == nibbles(data@).subrange(0, 2 * i as int),
        decreases data@.len() - i,
    {
        let b = data[i];
        out.push(b & 0x0F);
        out.push((b & 0xF0) >> 4);
        i = i + 1;
        assert(out@ =~= nibbles(data@).subrange(0, 2 * i as int));
    }
    assert(nibbles(data@).subrange(0, 2 * i as int) =~= nibbles(data@));
    assert forall|i: int| 0 <= i < out@.len() implies #[trigger] out@[i] < 16 by {
        let b = data@[i / 2];
        assert(b & 0x0Fu8 < 16 && (b & 0xF0u8) >> 4u8 < 16) by (bit_vector);
    }
    out
}

/// Joins each pair of bytes of `halves` into one byte, the first giving the
/// low half; `halves` has an even length.
pub fn decode_nibbles(halves: &[u8]) -> (r: Vec<u8>)
    requires
        halves@.len() % 2 == 0,
    ensures
        r@ == joined_nibbles(halves@),
{
    let len = halves.len();
    let n = len / 2;
    let mut out: Vec<u8> = Vec::with_capacity(n);
    let mut i: usize = 0;
    while i < n
        invariant
            n == halves@.len() / 2,
            len == halves@.len(),
            i <= n,
            out@ == joined_nibbles(halves@).subrange(0, i as int),
        decreases n - i,
    {
        assert(2 * i + 1 < halves@.len());
        let lo = halves[2 * i];
        let hi = halves[2 * i + 1];
        out.push(lo | (hi << 4u8));
        i = i + 1;
        assert(out@ =~= joined_nibbles(halves@).subrange(0, i as int));
    }
    assert(joined_nibbles(halves@).subrange(0, i as int) =~= joined_nibbles(halves@));
    out
}

/// What loading gives for what text storage holds under a tag: nothing for no
/// entry, else the bytes joined from the stored halves.
pub open spec fn loaded_data(stored: Option<Seq<u8>>) -> Option<Seq<u8>> {
    match stored {
        Some(halves) => Some(joined_nibbles(halves)),
        None => None,
    }
}

/// Loads bytes from what text storage holds under a tag: `None` for no entry,
/// else the bytes joined from the stored halves, which come in pairs.
pub fn load_stored(stored: Option<Vec<u8>>) -> (r: Option<Vec<u8>>)
    requires
        stored matches Some(halves) ==> halves@.len() % 2 == 0,
    ensures
        stored is None ==> r is None,
        stored matches Some(halves) ==> (r matches Some(data) && Some(data@) == loaded_data(Some(halves@))),
{
    match stored {
        Some(halves) => Some(decode_nibbles(&halves)),
        None => None,
    }
}

/// Joining the halves of split bytes gives the bytes back.
pub proof fn lemma_nibbles_round_trip(data: Seq<u8>)
    ensures
        joined_nibbles(nibbles(data)) == data,
{
    let h = nibbles(data);
    assert(h.len() / 2 == data.len());
    assert forall|i: int| 0 <= i < data.len() implies #[trigger] joined_nibbles(h)[i] == data[i] by {
        let b = data[i];
        assert(h[2 * i] == b & 0x0Fu8);
        assert(h[2 * i + 1] == (b & 0xF0u8) >> 4u8);
        assert((b & 0x0Fu8) | ((((b & 0xF0u8) >> 4u8) << 4u8) as u8) == b) by (bit_vector);
    }
    assert(joined_nibbles(h) =~= data);
}

/// Loading what was stored for some bytes gives those bytes back: the stored
/// halves come in pairs, so loading them is defined, and they join into `data`.
pub proof fn lemma_store_then_load(data: Seq<u8>)
    ensures
        nibbles(data).len() % 2 == 0,
        loaded_data(Some(nibbles(data))) == Some(data),
{
    lemma_nibbles_round_trip(data);
}

} // verus!
