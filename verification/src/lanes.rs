//! Arrays of integers: the image of an array is the images of its elements,
//! one after the other.
use crate::order::ByteOrder;
use crate::plain::{array_of, lemma_array_of, lemma_array_of_view, Plain};
use vstd::arithmetic::div_mod::{lemma_fundamental_div_mod, lemma_fundamental_div_mod_converse};
use vstd::prelude::*;

verus! {

/// The images of `items`, each of `K` bytes, one after the other: byte `i` is
/// byte `i % K` of item `i / K`.
pub open spec fn join<T: Plain<K>, const K: usize>(items: Seq<T>, order: ByteOrder) -> Seq<u8> {
    Seq::new(
        items.len() * K as nat,
        |i: int| items[i / (K as int)].image(order)[i % (K as int)],
    )
}

/// The values that `bytes` hold, `K` bytes to each: item `e` is held by the
/// bytes from `e * K` up to `e * K + K`.
pub open spec fn split<T: Plain<K>, const K: usize>(bytes: Seq<u8>, order: ByteOrder) -> Seq<T> {
    Seq::new(
        bytes.len() / K as nat,
        |e: int| T::of_image(bytes.subrange(e * K, e * K + K), order),
    )
}

/// Byte `j` of item `e` is byte `e * k + j` of the whole.
proof fn lemma_place(e: int, j: int, k: int, n: int)
    requires
        0 <= e < n,
        0 <= j < k,
    ensures
        0 <= e * k + j < n * k,
        (e + 1) * k == e * k + k <= n * k,
        (e * k + j) / k == e,
        (e * k + j) % k == j,
{
    lemma_fundamental_div_mod_converse(e * k + j, k, e, j);
    assert(0 <= e * k && (e + 1) * k == e * k + k <= n * k) by (nonlinear_arith)
        requires
            0 <= e < n,
            0 < k,
    ;
}

/// Byte `i` of the whole is byte `i % k` of item `i / k`.
proof fn lemma_item(i: int, k: int, n: int)
    requires
        0 <= i < n * k,
        0 < k,
    ensures
        0 <= i / k < n,
        0 <= i % k < k,
        i == (i / k) * k + i % k,
{
    lemma_fundamental_div_mod(i, k);
    assert(0 <= i / k < n && 0 <= i % k < k && i == (i / k) * k + i % k) by (nonlinear_arith)
        requires
            0 <= i < n * k,
            0 < k,
            i == k * (i / k) + (i % k),
            0 <= i % k < k,
    ;
}

/// `n * k` bytes are `n` items of `k` bytes.
proof fn lemma_count(n: int, k: int)
    requires
        0 <= n,
        0 < k,
    ensures
        (n * k) / k == n,
{
    lemma_fundamental_div_mod_converse(n * k, k, n, 0);
}

/// Joined images have `K` bytes for each item, and hold the items they were
/// taken from.
pub proof fn lemma_split_join<T: Plain<K>, const K: usize>(items: Seq<T>, order: ByteOrder)
    requires
        K > 0,
    ensures
        join::<T, K>(items, order).len() == items.len() * K,
        split::<T, K>(join::<T, K>(items, order), order) == items,
{
    let k = K as int;
    let n = items.len() as int;
    let bytes = join::<T, K>(items, order);
    lemma_count(n, k);
    assert forall|e: int| 0 <= e < n implies split::<T, K>(bytes, order)[e] == items[e] by {
        let part = bytes.subrange(e * k, e * k + k);
        items[e].lemma_image(order);
        lemma_place(e, 0, k, n);
        assert forall|j: int| 0 <= j < k implies part[j] == items[e].image(order)[j] by {
            lemma_place(e, j, k, n);
        }
        assert(part =~= items[e].image(order));
    }
    assert(split::<T, K>(bytes, order) =~= items);
}

/// The items that a whole number of `K`-byte runs hold have those bytes as
/// their joined images.
pub proof fn lemma_join_split<T: Plain<K>, const K: usize>(bytes: Seq<u8>, order: ByteOrder)
    requires
        K > 0,
        bytes.len() % K as nat == 0,
    ensures
        split::<T, K>(bytes, order).len() * K == bytes.len(),
        join::<T, K>(split::<T, K>(bytes, order), order) == bytes,
{
    let k = K as int;
    let n = bytes.len() as int / k;
    let items = split::<T, K>(bytes, order);
    lemma_fundamental_div_mod(bytes.len() as int, k);
    assert(n * k == bytes.len()) by (nonlinear_arith)
        requires
            bytes.len() == k * n + 0,
    ;
    assert forall|i: int| 0 <= i < bytes.len() implies join::<T, K>(items, order)[i] == bytes[i] by {
        lemma_item(i, k, n);
        let e = i / k;
        lemma_place(e, 0, k, n);
        T::lemma_of_image(bytes.subrange(e * k, e * k + k), order);
    }
    assert(join::<T, K>(items, order) =~= bytes);
}

/// Writes the images of the items of an array one after the other.
pub fn pack<T: Plain<K>, const K: usize, const N: usize, const W: usize>(
    items: &[T; N],
    order: ByteOrder,
) -> (bytes: [u8; W])
    requires
        K > 0,
        W == N * K,
    ensures
        bytes@ == join::<T, K>(items@, order),
{
    let mut bytes = [0u8; W];
    let mut e: usize = 0;
    let mut base: usize = 0;
    while e < N
        invariant
            K > 0,
            W == N * K,
            e <= N,
            base == e * K,
            forall|i: int|
                0 <= i < base ==> bytes@[i] == items@[i / (K as int)].image(order)[i % (K as int)],
        decreases N - e,
    {
        let chunk: [u8; K] = items[e].to_bytes(order);
        proof {
            lemma_place(e as int, 0, K as int, N as int);
        }
        let mut j: usize = 0;
        while j < K
            invariant
                K > 0,
                W == N * K,
                e < N,
                j <= K,
                base == e * K,
                base + K <= W,
                chunk@ == items@[e as int].image(order),
                forall|i: int|
                    0 <= i < base + j ==> bytes@[i] == items@[i / (K as int)].image(order)[i % (
                    K as int)],
            decreases K - j,
        {
            bytes[base + j] = chunk[j];
            proof {
                lemma_place(e as int, j as int, K as int, N as int);
            }
            j += 1;
        }
        base += K;
        e += 1;
    }
    proof {
        assert(bytes@ =~= join::<T, K>(items@, order));
    }
    bytes
}

/// Builds the array whose items the bytes hold, `K` bytes to each.
pub fn unpack<T: Plain<K>, const K: usize, const N: usize, const W: usize>(
    bytes: &[u8; W],
    order: ByteOrder,
) -> (items: [T; N])
    requires
        K > 0,
        W == N * K,
    ensures
        items@ == split::<T, K>(bytes@, order),
{
    let mut chunk = [0u8; K];
    let mut items = [T::from_bytes(chunk, order); N];
    let mut e: usize = 0;
    let mut base: usize = 0;
    while e < N
        invariant
            K > 0,
            W == N * K,
            e <= N,
            base == e * K,
            forall|d: int|
                0 <= d < e ==> items@[d] == T::of_image(
                    bytes@.subrange(d * K, d * K + K),
                    order,
                ),
        decreases N - e,
    {
        proof {
            lemma_place(e as int, 0, K as int, N as int);
        }
        let mut j: usize = 0;
        while j < K
            invariant
                j <= K,
                base + K <= W,
                forall|i: int| 0 <= i < j ==> chunk@[i] == bytes@[base + i],
            decreases K - j,
        {
            chunk[j] = bytes[base + j];
            j += 1;
        }
        proof {
            assert(chunk@ =~= bytes@.subrange(base as int, base + K));
        }
        items[e] = T::from_bytes(chunk, order);
        base += K;
        e += 1;
    }
    proof {
        lemma_count(N as int, K as int);
        assert(items@ =~= split::<T, K>(bytes@, order));
    }
    items
}

/// Two `u16` side by side make 4 bytes.
impl Plain<4> for [u16; 2] {
    open spec fn image(self, order: ByteOrder) -> Seq<u8> {
        join::<u16, 2>(self@, order)
    }

    open spec fn of_image(bytes: Seq<u8>, order: ByteOrder) -> Self {
        array_of::<u16, 2>(split::<u16, 2>(bytes, order))
    }

    proof fn lemma_image(self, order: ByteOrder) {
        lemma_split_join::<u16, 2>(self@, order);
        lemma_array_of_view::<u16, 2>(self);
    }

    proof fn lemma_of_image(bytes: Seq<u8>, order: ByteOrder) {
        lemma_join_split::<u16, 2>(bytes, order);
        lemma_array_of::<u16, 2>(split::<u16, 2>(bytes, order));
    }

    fn to_bytes(self, order: ByteOrder) -> (bytes: [u8; 4]) {
        pack::<u16, 2, 2, 4>(&self, order)
    }

    fn from_bytes(bytes: [u8; 4], order: ByteOrder) -> (value: Self) {
        let value = unpack::<u16, 2, 2, 4>(&bytes, order);
        proof {
            lemma_array_of_view::<u16, 2>(value);
        }
        value
    }
}

/// Four `u16` side by side make 8 bytes.
impl Plain<8> for [u16; 4] {
    open spec fn image(self, order: ByteOrder) -> Seq<u8> {
        join::<u16, 2>(self@, order)
    }

    open spec fn of_image(bytes: Seq<u8>, order: ByteOrder) -> Self {
        array_of::<u16, 4>(split::<u16, 2>(bytes, order))
    }

    proof fn lemma_image(self, order: ByteOrder) {
        lemma_split_join::<u16, 2>(self@, order);
        lemma_array_of_view::<u16, 4>(self);
    }

    proof fn lemma_of_image(bytes: Seq<u8>, order: ByteOrder) {
        lemma_join_split::<u16, 2>(bytes, order);
        lemma_array_of::<u16, 4>(split::<u16, 2>(bytes, order));
    }

    fn to_bytes(self, order: ByteOrder) -> (bytes: [u8; 8]) {
        pack::<u16, 2, 4, 8>(&self, order)
    }

    fn from_bytes(bytes: [u8; 8], order: ByteOrder) -> (value: Self) {
        let value = unpack::<u16, 2, 4, 8>(&bytes, order);
        proof {
            lemma_array_of_view::<u16, 4>(value);
        }
        value
    }
}

/// Eight `u16` side by side make 16 bytes.
impl Plain<16> for [u16; 8] {
    open spec fn image(self, order: ByteOrder) -> Seq<u8> {
        join::<u16, 2>(self@, order)
    }

    open spec fn of_image(bytes: Seq<u8>, order: ByteOrder) -> Self {
        array_of::<u16, 8>(split::<u16, 2>(bytes, order))
    }

    proof fn lemma_image(self, order: ByteOrder) {
        lemma_split_join::<u16, 2>(self@, order);
        lemma_array_of_view::<u16, 8>(self);
    }

    proof fn lemma_of_image(bytes: Seq<u8>, order: ByteOrder) {
        lemma_join_split::<u16, 2>(bytes, order);
        lemma_array_of::<u16, 8>(split::<u16, 2>(bytes, order));
    }

    fn to_bytes(self, order: ByteOrder) -> (bytes: [u8; 16]) {
        pack::<u16, 2, 8, 16>(&self, order)
    }

    fn from_bytes(bytes: [u8; 16], order: ByteOrder) -> (value: Self) {
        let value = unpack::<u16, 2, 8, 16>(&bytes, order);
        proof {
            lemma_array_of_view::<u16, 8>(value);
        }
        value
    }
}

/// Two `u32` side by side make 8 bytes.
impl Plain<8> for [u32; 2] {
    open spec fn image(self, order: ByteOrder) -> Seq<u8> {
        join::<u32, 4>(self@, order)
    }

    open spec fn of_image(bytes: Seq<u8>, order: ByteOrder) -> Self {
        array_of::<u32, 2>(split::<u32, 4>(bytes, order))
    }

    proof fn lemma_image(self, order: ByteOrder) {
        lemma_split_join::<u32, 4>(self@, order);
        lemma_array_of_view::<u32, 2>(self);
    }

    proof fn lemma_of_image(bytes: Seq<u8>, order: ByteOrder) {
        lemma_join_split::<u32, 4>(bytes, order);
        lemma_array_of::<u32, 2>(split::<u32, 4>(bytes, order));
    }

    fn to_bytes(self, order: ByteOrder) -> (bytes: [u8; 8]) {
        pack::<u32, 4, 2, 8>(&self, order)
    }

    fn from_bytes(bytes: [u8; 8], order: ByteOrder) -> (value: Self) {
        let value = unpack::<u32, 4, 2, 8>(&bytes, order);
        proof {
            lemma_array_of_view::<u32, 2>(value);
        }
        value
    }
}

/// Four `u32` side by side make 16 bytes.
impl Plain<16> for [u32; 4] {
    open spec fn image(self, order: ByteOrder) -> Seq<u8> {
        join::<u32, 4>(self@, order)
    }

    open spec fn of_image(bytes: Seq<u8>, order: ByteOrder) -> Self {
        array_of::<u32, 4>(split::<u32, 4>(bytes, order))
    }

    proof fn lemma_image(self, order: ByteOrder) {
        lemma_split_join::<u32, 4>(self@, order);
        lemma_array_of_view::<u32, 4>(self);
    }

    proof fn lemma_of_image(bytes: Seq<u8>, order: ByteOrder) {
        lemma_join_split::<u32, 4>(bytes, order);
        lemma_array_of::<u32, 4>(split::<u32, 4>(bytes, order));
    }

    fn to_bytes(self, order: ByteOrder) -> (bytes: [u8; 16]) {
        pack::<u32, 4, 4, 16>(&self, order)
    }

    fn from_bytes(bytes: [u8; 16], order: ByteOrder) -> (value: Self) {
        let value = unpack::<u32, 4, 4, 16>(&bytes, order);
        proof {
            lemma_array_of_view::<u32, 4>(value);
        }
        value
    }
}

/// Two `u64` side by side make 16 bytes.
impl Plain<16> for [u64; 2] {
    open spec fn image(self, order: ByteOrder) -> Seq<u8> {
        join::<u64, 8>(self@, order)
    }

    open spec fn of_image(bytes: Seq<u8>, order: ByteOrder) -> Self {
        array_of::<u64, 2>(split::<u64, 8>(bytes, order))
    }

    proof fn lemma_image(self, order: ByteOrder) {
        lemma_split_join::<u64, 8>(self@, order);
        lemma_array_of_view::<u64, 2>(self);
    }

    proof fn lemma_of_image(bytes: Seq<u8>, order: ByteOrder) {
        lemma_join_split::<u64, 8>(bytes, order);
        lemma_array_of::<u64, 2>(split::<u64, 8>(bytes, order));
    }

    fn to_bytes(self, order: ByteOrder) -> (bytes: [u8; 16]) {
        pack::<u64, 8, 2, 16>(&self, order)
    }

    fn from_bytes(bytes: [u8; 16], order: ByteOrder) -> (value: Self) {
        let value = unpack::<u64, 8, 2, 16>(&bytes, order);
        proof {
            lemma_array_of_view::<u64, 2>(value);
        }
        value
    }
}

} // verus!
