//! Small helpers that move bytes between slices, vectors and fixed arrays.

use vstd::prelude::*;

verus! {

/// The sixteen bytes of `source` that start at `from`.
pub(crate) fn take_16(source: &[u8], from: usize) -> (block: [u8; 16])
    requires
        from + 16 <= source@.len(),
    ensures
        block@ == source@.subrange(from as int, from + 16),
{
    let mut block = [0u8; 16];
    let length = source.len();
    let mut i: usize = 0;
    while i < 16
        invariant
            i <= 16,
            length == source@.len(),
            from + 16 <= source@.len(),
            forall|j: int| 0 <= j < i ==> block@[j] == source@[from + j],
        decreases 16 - i,
    {
        block[i] = source[from + i];
        i += 1;
    }
    assert(block@ =~= source@.subrange(from as int, from + 16));
    block
}

/// The thirty-two bytes of `source` that start at `from`.
pub(crate) fn take_32(source: &[u8], from: usize) -> (block: [u8; 32])
    requires
        from + 32 <= source@.len(),
    ensures
        block@ == source@.subrange(from as int, from + 32),
{
    let mut block = [0u8; 32];
    let length = source.len();
    let mut i: usize = 0;
    while i < 32
        invariant
            i <= 32,
            length == source@.len(),
            from + 32 <= source@.len(),
            forall|j: int| 0 <= j < i ==> block@[j] == source@[from + j],
        decreases 32 - i,
    {
        block[i] = source[from + i];
        i += 1;
    }
    assert(block@ =~= source@.subrange(from as int, from + 32));
    block
}

/// A vector holding the bytes of `source` from `from` up to `to`.
pub(crate) fn copy_range(source: &[u8], from: usize, to: usize) -> (out: Vec<u8>)
    requires
        from <= to <= source@.len(),
    ensures
        out@ == source@.subrange(from as int, to as int),
{
    let mut out: Vec<u8> = Vec::new();
    let mut i: usize = from;
    while i < to
        invariant
            from <= i <= to <= source@.len(),
            out@ == source@.subrange(from as int, i as int),
        decreases to - i,
    {
        out.push(source[i]);
        assert(out@ =~= source@.subrange(from as int, i + 1));
        i += 1;
    }
    out
}

/// Appends the bytes of `tail` to `out`.
pub(crate) fn append_bytes(out: &mut Vec<u8>, tail: &[u8])
    ensures
        final(out)@ == old(out)@ + tail@,
{
    let mut i: usize = 0;
    while i < tail.len()
        invariant
            i <= tail@.len(),
            out@ == old(out)@ + tail@.subrange(0, i as int),
        decreases tail@.len() - i,
    {
        out.push(tail[i]);
        assert(out@ =~= old(out)@ + tail@.subrange(0, i + 1));
        i += 1;
    }
    assert(tail@.subrange(0, tail@.len() as int) =~= tail@);
}

/// Whether two byte strings are equal.
pub(crate) fn bytes_eq(a: &[u8], b: &[u8]) -> (same: bool)
    ensures
        same == (a@ == b@),
{
    if a.len() != b.len() {
        return false;
    }
    let mut i: usize = 0;
    while i < a.len()
        invariant
            i <= a@.len(),
            a@.len() == b@.len(),
            forall|j: int| 0 <= j < i ==> a@[j] == b@[j],
        decreases a@.len() - i,
    {
        if a[i] != b[i] {
            return false;
        }
        i += 1;
    }
    assert(a@ =~= b@);
    true
}


/// The array whose elements are those of `s`, where `s` has `N` of them.
pub open spec fn array_from_seq<const N: usize>(s: Seq<u8>) -> [u8; N] {
    choose|a: [u8; N]| a@ == s
}

spec fn filled_up_to<const N: usize>(s: Seq<u8>, upto: nat) -> [u8; N]
    decreases upto,
{
    if upto == 0 {
        vstd::array::spec_array_fill_for_copy_type::<u8, N>(0u8)
    } else {
        vstd::array::spec_array_update(
            filled_up_to::<N>(s, (upto - 1) as nat),
            upto - 1,
            s[upto - 1],
        )
    }
}

proof fn lemma_filled_up_to<const N: usize>(s: Seq<u8>, upto: nat)
    requires
        s.len() == N,
        upto <= N,
    ensures
        forall|i: int| 0 <= i < upto ==> filled_up_to::<N>(s, upto)@[i] == s[i],
    decreases upto,
{
    if upto > 0 {
        lemma_filled_up_to::<N>(s, (upto - 1) as nat);
    }
}

/// `array_from_seq` does give an array with the elements of `s`.
pub proof fn lemma_array_from_seq<const N: usize>(s: Seq<u8>)
    requires
        s.len() == N,
    ensures
        array_from_seq::<N>(s)@ == s,
{
    lemma_filled_up_to::<N>(s, N as nat);
    let witness = filled_up_to::<N>(s, N as nat);
    assert(witness@ =~= s);
}

/// An array is the array made from its own elements.
pub proof fn lemma_array_from_own_seq<const N: usize>(a: [u8; N])
    ensures
        array_from_seq::<N>(a@) == a,
{
    lemma_array_from_seq::<N>(a@);
    assert(array_from_seq::<N>(a@) =~= a);
}

/// The number that `bytes` spell in base 256, most significant byte first.
pub open spec fn be_value(bytes: Seq<u8>) -> nat
    decreases bytes.len(),
{
    if bytes.len() == 0 {
        0
    } else {
        be_value(bytes.drop_last()) * 256 + bytes.last() as nat
    }
}

/// The `len` bytes that spell `value` in base 256, most significant byte
/// first; higher digits that do not fit are dropped.
pub open spec fn be_bytes(value: nat, len: nat) -> Seq<u8>
    decreases len,
{
    if len == 0 {
        Seq::empty()
    } else {
        be_bytes(value / 256, (len - 1) as nat).push((value % 256) as u8)
    }
}

/// 256 to the power `len`.
pub open spec fn pow256(len: nat) -> nat
    decreases len,
{
    if len == 0 {
        1
    } else {
        256 * pow256((len - 1) as nat)
    }
}

/// `be_bytes` gives `len` bytes.
pub proof fn lemma_be_bytes_len(value: nat, len: nat)
    ensures
        be_bytes(value, len).len() == len,
    decreases len,
{
    if len > 0 {
        lemma_be_bytes_len(value / 256, (len - 1) as nat);
    }
}

/// A number that fits in `len` bytes is read back from them.
pub proof fn lemma_be_value_of_bytes(value: nat, len: nat)
    requires
        value < pow256(len),
    ensures
        be_value(be_bytes(value, len)) == value,
    decreases len,
{
    if len > 0 {
        let rest = be_bytes(value / 256, (len - 1) as nat);
        assert(value / 256 < pow256((len - 1) as nat)) by (nonlinear_arith)
            requires
                value < 256 * pow256((len - 1) as nat),
        ;
        lemma_be_value_of_bytes(value / 256, (len - 1) as nat);
        let all = be_bytes(value, len);
        assert(all.drop_last() =~= rest);
        assert(all.last() == (value % 256) as u8);
        assert(value == (value / 256) * 256 + value % 256) by (nonlinear_arith);
    }
}

/// Bytes are written back from the number they spell, which fits in as many
/// bytes as there were.
pub proof fn lemma_be_bytes_of_value(bytes: Seq<u8>)
    ensures
        be_value(bytes) < pow256(bytes.len()),
        be_bytes(be_value(bytes), bytes.len()) == bytes,
    decreases bytes.len(),
{
    if bytes.len() > 0 {
        let head = bytes.drop_last();
        lemma_be_bytes_of_value(head);
        let v = be_value(head);
        let last = bytes.last() as nat;
        assert((v * 256 + last) / 256 == v && (v * 256 + last) % 256 == last) by (nonlinear_arith)
            requires
                last < 256,
        ;
        assert(v * 256 + last < 256 * pow256(head.len())) by (nonlinear_arith)
            requires
                v < pow256(head.len()),
                last < 256,
        ;
        assert(be_bytes(be_value(bytes), bytes.len()) =~= bytes);
    } else {
        assert(be_bytes(0, 0) =~= bytes);
    }
}

/// Reads the big-endian number in the `len` bytes of `source` from `from`.
pub(crate) fn read_be(source: &[u8], from: usize, len: usize) -> (value: u64)
    requires
        len <= 8,
        from + len <= source@.len(),
    ensures
        value == be_value(source@.subrange(from as int, from + len)),
{
    let total = source.len();
    let mut value: u64 = 0;
    let mut i: usize = 0;
    proof {
        assert(source@.subrange(from as int, from as int) =~= Seq::<u8>::empty());
    }
    while i < len
        invariant
            i <= len <= 8,
            total == source@.len(),
            from + len <= source@.len(),
            value == be_value(source@.subrange(from as int, from + i)),
            value < pow256(i as nat),
        decreases len - i,
    {
        let byte = source[from + i];
        proof {
            let next = source@.subrange(from as int, from + i + 1);
            assert(next.drop_last() =~= source@.subrange(from as int, from + i));
            assert(next.last() == byte);
            lemma_pow256_bound(i as nat);
            assert(value * 256 + byte < 256 * pow256(i as nat)) by (nonlinear_arith)
                requires
                    value < pow256(i as nat),
                    byte < 256,
            ;
            lemma_pow256_bound((i + 1) as nat);
        }
        value = value * 256 + byte as u64;
        i += 1;
    }
    value
}

/// Powers of 256 up to the eighth, which is where `u64` ends.
pub proof fn lemma_pow256_bound(len: nat)
    requires
        len <= 8,
    ensures
        pow256(len) <= 0x1_0000_0000_0000_0000,
        len <= 7 ==> pow256(len) <= 0x100_0000_0000_0000,
        len == 1 ==> pow256(len) == 0x100,
        len == 2 ==> pow256(len) == 0x1_0000,
        len == 4 ==> pow256(len) == 0x1_0000_0000,
        len == 8 ==> pow256(len) == 0x1_0000_0000_0000_0000,
{
    reveal_with_fuel(pow256, 10);
}

/// Appends to `out` the `len` bytes that spell `value`, most significant
/// first.
pub(crate) fn write_be(out: &mut Vec<u8>, value: u64, len: usize)
    requires
        len <= 8,
    ensures
        final(out)@ == old(out)@ + be_bytes(value as nat, len as nat),
{
    let mut digits: Vec<u8> = Vec::new();
    let mut rest: u64 = value;
    let mut i: usize = 0;
    proof {
        lemma_be_bytes_len(value as nat, len as nat);
        assert(be_bytes(value as nat, len as nat).subrange(0, len as int) =~= be_bytes(
            value as nat,
            len as nat,
        ));
    }
    // Least significant byte first, then appended in reverse.
    while i < len
        invariant
            i <= len <= 8,
            digits@.len() == i,
            be_bytes(value as nat, len as nat).len() == len,
            forall|j: int|
                0 <= j < i ==> digits@[j] == be_bytes(value as nat, len as nat)[len - 1 - j],
            be_bytes(rest as nat, (len - i) as nat) == be_bytes(value as nat, len as nat).subrange(
                0,
                len - i,
            ),
        decreases len - i,
    {
        proof {
            lemma_be_bytes_len(value as nat, len as nat);
            lemma_be_bytes_len(rest as nat, (len - i) as nat);
            lemma_be_bytes_len(rest as nat / 256, (len - i - 1) as nat);
            let here = be_bytes(rest as nat, (len - i) as nat);
            assert(here.last() == (rest % 256) as u8);
            assert(here.drop_last() =~= be_bytes(rest as nat / 256, (len - i - 1) as nat));
            assert(here.drop_last() =~= be_bytes(value as nat, len as nat).subrange(
                0,
                len - i - 1,
            ));
        }
        digits.push((rest % 256) as u8);
        rest = rest / 256;
        i += 1;
    }
    let mut k: usize = len;
    proof {
        lemma_be_bytes_len(value as nat, len as nat);
        assert(be_bytes(value as nat, len as nat).subrange(0, 0) =~= Seq::<u8>::empty());
    }
    while k > 0
        invariant
            k <= len,
            digits@.len() == len,
            be_bytes(value as nat, len as nat).len() == len,
            forall|j: int|
                0 <= j < len ==> digits@[j] == be_bytes(value as nat, len as nat)[len - 1 - j],
            out@ == old(out)@ + be_bytes(value as nat, len as nat).subrange(0, len - k),
        decreases k,
    {
        k -= 1;
        out.push(digits[k]);
        assert(out@ =~= old(out)@ + be_bytes(value as nat, len as nat).subrange(0, len - k));
    }
    assert(be_bytes(value as nat, len as nat).subrange(0, len as int) =~= be_bytes(
        value as nat,
        len as nat,
    ));
}


/// Whether two texts are equal.
pub(crate) fn str_eq(a: &str, b: &str) -> (same: bool)
    ensures
        same == (a@ == b@),
{
    let same = bytes_eq(a.as_bytes(), b.as_bytes());
    proof {
        vstd::utf8::encode_utf8_decode_utf8(a@);
        vstd::utf8::encode_utf8_decode_utf8(b@);
    }
    same
}

} // verus!
