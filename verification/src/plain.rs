//! Values that are nothing but their bytes: the unsigned integers and the
//! arrays of them. Each is described by its image, the bytes that hold it in
//! memory.
use crate::digits::{
    digits, from_digits, lemma_digits_of_number, lemma_number_of_digits, lemma_pow256_values,
    number, to_digits,
};
use crate::order::ByteOrder;
use vstd::prelude::*;

verus! {

/// A value that occupies exactly `W` bytes of memory, every pattern of which
/// is a value of the type.
pub trait Plain<const W: usize>: Copy {
    /// The bytes that hold `self` in the memory of a machine of the given byte
    /// order, lowest address first.
    spec fn image(self, order: ByteOrder) -> Seq<u8>;

    /// The value that `bytes` hold in the memory of a machine of the given
    /// byte order. It is meant for `W` bytes.
    spec fn of_image(bytes: Seq<u8>, order: ByteOrder) -> Self;

    /// An image has `W` bytes, and they hold the value they were taken from.
    proof fn lemma_image(self, order: ByteOrder)
        ensures
            self.image(order).len() == W,
            Self::of_image(self.image(order), order) == self,
    ;

    /// Any `W` bytes are the image of the value they hold.
    proof fn lemma_of_image(bytes: Seq<u8>, order: ByteOrder)
        requires
            bytes.len() == W,
        ensures
            Self::of_image(bytes, order).image(order) == bytes,
    ;

    /// Copies the image of `self` out.
    fn to_bytes(self, order: ByteOrder) -> (bytes: [u8; W])
        ensures
            bytes@ == self.image(order),
    ;

    /// Builds the value that `bytes` hold.
    fn from_bytes(bytes: [u8; W], order: ByteOrder) -> (value: Self)
        ensures
            value == Self::of_image(bytes@, order),
    ;
}

/// The array whose elements are `items`. It is meant for `N` items.
pub open spec fn array_of<T, const N: usize>(items: Seq<T>) -> [T; N] {
    choose|array: [T; N]| array@ == items
}

/// `array_of` gives an array back from its elements.
pub proof fn lemma_array_of_view<T, const N: usize>(array: [T; N])
    ensures
        array_of::<T, N>(array@) == array,
{
    assert(array_of::<T, N>(array@) =~= array);
}

/// An array that agrees with `items` below `n`.
spec fn array_upto<T: Copy, const N: usize>(items: Seq<T>, n: nat) -> [T; N]
    decreases n,
{
    if n == 0 {
        vstd::array::spec_array_fill_for_copy_type::<T, N>(items[0])
    } else {
        vstd::array::spec_array_update(array_upto::<T, N>(items, (n - 1) as nat), n - 1, items[n - 1])
    }
}

proof fn lemma_array_upto<T: Copy, const N: usize>(items: Seq<T>, n: nat)
    requires
        n <= N,
        items.len() == N,
    ensures
        forall|i: int| 0 <= i < n ==> array_upto::<T, N>(items, n)@[i] == items[i],
    decreases n,
{
    if n > 0 {
        lemma_array_upto::<T, N>(items, (n - 1) as nat);
    }
}

/// Every `N` items are the elements of an array, and `array_of` gives it.
pub proof fn lemma_array_of<T: Copy, const N: usize>(items: Seq<T>)
    requires
        items.len() == N,
    ensures
        array_of::<T, N>(items)@ == items,
{
    lemma_array_upto::<T, N>(items, N as nat);
    assert(array_upto::<T, N>(items, N as nat)@ =~= items);
}

/// Bytes are their own image, whatever the byte order.
impl<const W: usize> Plain<W> for [u8; W] {
    open spec fn image(self, order: ByteOrder) -> Seq<u8> {
        self@
    }

    open spec fn of_image(bytes: Seq<u8>, order: ByteOrder) -> Self {
        array_of::<u8, W>(bytes)
    }

    proof fn lemma_image(self, order: ByteOrder) {
        lemma_array_of_view::<u8, W>(self);
    }

    proof fn lemma_of_image(bytes: Seq<u8>, order: ByteOrder) {
        lemma_array_of::<u8, W>(bytes);
    }

    fn to_bytes(self, order: ByteOrder) -> (bytes: [u8; W]) {
        self
    }

    fn from_bytes(bytes: [u8; W], order: ByteOrder) -> (value: Self) {
        proof {
            lemma_array_of_view::<u8, W>(bytes);
        }
        bytes
    }
}

/// A `u16` is held by its two base-256 digits.
impl Plain<2> for u16 {
    open spec fn image(self, order: ByteOrder) -> Seq<u8> {
        digits(self as nat, 2, order)
    }

    open spec fn of_image(bytes: Seq<u8>, order: ByteOrder) -> Self {
        number(bytes, order) as u16
    }

    proof fn lemma_image(self, order: ByteOrder) {
        lemma_pow256_values();
        lemma_number_of_digits(self as nat, 2, order);
    }

    proof fn lemma_of_image(bytes: Seq<u8>, order: ByteOrder) {
        lemma_pow256_values();
        lemma_digits_of_number(bytes, order);
    }

    fn to_bytes(self, order: ByteOrder) -> (bytes: [u8; 2]) {
        to_digits::<2>(self as u128, order)
    }

    fn from_bytes(bytes: [u8; 2], order: ByteOrder) -> (value: Self) {
        proof {
            lemma_pow256_values();
            lemma_digits_of_number(bytes@, order);
        }
        from_digits::<2>(&bytes, order) as u16
    }
}

/// A `u32` is held by its four base-256 digits.
impl Plain<4> for u32 {
    open spec fn image(self, order: ByteOrder) -> Seq<u8> {
        digits(self as nat, 4, order)
    }

    open spec fn of_image(bytes: Seq<u8>, order: ByteOrder) -> Self {
        number(bytes, order) as u32
    }

    proof fn lemma_image(self, order: ByteOrder) {
        lemma_pow256_values();
        lemma_number_of_digits(self as nat, 4, order);
    }

    proof fn lemma_of_image(bytes: Seq<u8>, order: ByteOrder) {
        lemma_pow256_values();
        lemma_digits_of_number(bytes, order);
    }

    fn to_bytes(self, order: ByteOrder) -> (bytes: [u8; 4]) {
        to_digits::<4>(self as u128, order)
    }

    fn from_bytes(bytes: [u8; 4], order: ByteOrder) -> (value: Self) {
        proof {
            lemma_pow256_values();
            lemma_digits_of_number(bytes@, order);
        }
        from_digits::<4>(&bytes, order) as u32
    }
}

/// A `u64` is held by its eight base-256 digits.
impl Plain<8> for u64 {
    open spec fn image(self, order: ByteOrder) -> Seq<u8> {
        digits(self as nat, 8, order)
    }

    open spec fn of_image(bytes: Seq<u8>, order: ByteOrder) -> Self {
        number(bytes, order) as u64
    }

    proof fn lemma_image(self, order: ByteOrder) {
        lemma_pow256_values();
        lemma_number_of_digits(self as nat, 8, order);
    }

    proof fn lemma_of_image(bytes: Seq<u8>, order: ByteOrder) {
        lemma_pow256_values();
        lemma_digits_of_number(bytes, order);
    }

    fn to_bytes(self, order: ByteOrder) -> (bytes: [u8; 8]) {
        to_digits::<8>(self as u128, order)
    }

    fn from_bytes(bytes: [u8; 8], order: ByteOrder) -> (value: Self) {
        proof {
            lemma_pow256_values();
            lemma_digits_of_number(bytes@, order);
        }
        from_digits::<8>(&bytes, order) as u64
    }
}

/// A `u128` is held by its sixteen base-256 digits.
impl Plain<16> for u128 {
    open spec fn image(self, order: ByteOrder) -> Seq<u8> {
        digits(self as nat, 16, order)
    }

    open spec fn of_image(bytes: Seq<u8>, order: ByteOrder) -> Self {
        number(bytes, order) as u128
    }

    proof fn lemma_image(self, order: ByteOrder) {
        lemma_pow256_values();
        lemma_number_of_digits(self as nat, 16, order);
    }

    proof fn lemma_of_image(bytes: Seq<u8>, order: ByteOrder) {
        lemma_pow256_values();
        lemma_digits_of_number(bytes, order);
    }

    fn to_bytes(self, order: ByteOrder) -> (bytes: [u8; 16]) {
        to_digits::<16>(self, order)
    }

    fn from_bytes(bytes: [u8; 16], order: ByteOrder) -> (value: Self) {
        from_digits::<16>(&bytes, order)
    }
}

} // verus!
