use vstd::prelude::*;

verus! {

/// The word whose low byte `encrypt` applies.
pub const ENCRYPTION_KEY: u32 = 2948064217;

/// `data` with each byte XOR-ed with the key byte at the same position, the key
/// repeated as often as needed. An empty key leaves `data` as it is.
pub open spec fn xor_cycled(data: Seq<u8>, key: Seq<u8>) -> Seq<u8> {
    if key.len() == 0 {
        data
    } else {
        Seq::new(data.len(), |i: int| data[i] ^ key[i % (key.len() as int)])
    }
}

/// Pairwise XOR over the shorter of the two inputs; nothing is repeated.
pub open spec fn xor_paired(a: Seq<u8>, b: Seq<u8>) -> Seq<u8> {
    let n = if a.len() <= b.len() { a.len() } else { b.len() };
    Seq::new(n, |i: int| a[i] ^ b[i])
}

/// `data` with every byte at a position in `[offset, offset + length)` XOR-ed with `k`.
pub open spec fn xor_ranged(data: Seq<u8>, offset: int, length: int, k: u8) -> Seq<u8> {
    Seq::new(data.len(), |i: int| if offset <= i < offset + length { data[i] ^ k } else { data[i] })
}

/// XOR-ing twice with the same key gives the data back.
pub proof fn lemma_xor_cycled_involution(data: Seq<u8>, key: Seq<u8>)
    ensures
        xor_cycled(xor_cycled(data, key), key) == data,
{
    if key.len() > 0 {
        let once = xor_cycled(data, key);
        assert forall|i: int| 0 <= i < data.len() implies #[trigger] xor_cycled(once, key)[i] == data[i] by {
            let a = data[i];
            let k = key[i % (key.len() as int)];
            assert((a ^ k) ^ k == a) by (bit_vector);
        }
        assert(xor_cycled(once, key) =~= data);
    }
}

/// XORs the bytes of `data[offset .. min(offset + length, data.len())]` with the low
/// byte of `ENCRYPTION_KEY`; nothing changes when `offset` is past the end or
/// `length` is zero.
pub fn encrypt(data: &mut [u8], offset: usize, length: usize)
    ensures
        final(data)@ == xor_ranged(old(data)@, offset as int, length as int, (ENCRYPTION_KEY & 0xFF) as u8),
{
    let ghost before = data@;
    if offset >= data.len() || length == 0 {
        assert(data@ =~= xor_ranged(before, offset as int, length as int, (ENCRYPTION_KEY & 0xFF) as u8));
        return;
    }
    let end: usize = if length <= data.len() - offset { offset + length } else { data.len() };
    let key_byte: u8 = (ENCRYPTION_KEY & 0xFF) as u8;
    let mut i: usize = offset;
    while i < end
        invariant
            offset <= i <= end <= data@.len(),
            data@.len() == before.len(),
            end == before.len() || end == offset + length,
            key_byte == (ENCRYPTION_KEY & 0xFF) as u8,
            forall|j: int| 0 <= j < data@.len() ==> #[trigger] data@[j] == if offset <= j < i { before[j] ^ key_byte } else { before[j] },
        decreases end - i,
    {
        data[i] = data[i] ^ key_byte;
        i = i + 1;
    }
    assert(data@ =~= xor_ranged(before, offset as int, length as int, key_byte));
}

/// Cyclic XOR that returns `None` when `data` or `key` is empty.
pub fn encrypt_with_key(data: &[u8], key: &[u8]) -> (r: Option<Vec<u8>>)
    ensures
        data@.len() == 0 || key@.len() == 0 ==> r is None,
        data@.len() > 0 && key@.len() > 0 ==> (r matches Some(v) && v@ == xor_cycled(data@, key@)),
{
    if data.len() == 0 || key.len() == 0 {
        return None;
    }
    let mut out: Vec<u8> = Vec::with_capacity(data.len());
    let mut i: usize = 0;
    while i < data.len()
        invariant
            i <= data@.len(),
            key@.len() > 0,
            out@ =~= xor_cycled(data@, key@).subrange(0, i as int),
        decreases data@.len() - i,
    {
        out.push(data[i] ^ key[i % key.len()]);
        i = i + 1;
    }
    Some(out)
}

/// Pairwise XOR over the shorter of `value` and `key`.
pub fn xor_exact(value: &[u8], key: &[u8]) -> (r: Vec<u8>)
    ensures
        r@ == xor_paired(value@, key@),
{
    let n: usize = if value.len() <= key.len() { value.len() } else { key.len() };
    let mut out: Vec<u8> = Vec::with_capacity(n);
    let mut i: usize = 0;
    while i < n
        invariant
            i <= n,
            n == if value@.len() <= key@.len() { value@.len() } else { key@.len() },
            out@ =~= xor_paired(value@, key@).subrange(0, i as int),
        decreases n - i,
    {
        out.push(value[i] ^ key[i]);
        i = i + 1;
    }
    out
}

/// Cyclic XOR of `data` with `key`, in place; an empty key changes nothing.
pub fn xor_inplace(data: &mut [u8], key: &[u8])
    ensures
        final(data)@ == xor_cycled(old(data)@, key@),
{
    let ghost before = data@;
    if key.len() == 0 {
        return;
    }
    let mut i: usize = 0;
    while i < data.len()
        invariant
            i <= data@.len(),
            data@.len() == before.len(),
            key@.len() > 0,
            forall|j: int| 0 <= j < data@.len() ==> #[trigger] data@[j] == if j < i { before[j] ^ key@[j % (key@.len() as int)] } else { before[j] },
        decreases data@.len() - i,
    {
        data[i] = data[i] ^ key[i % key.len()];
        i = i + 1;
    }
    assert(data@ =~= xor_cycled(before, key@));
}

} // verus!
