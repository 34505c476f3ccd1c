//! Reading fixed-width unsigned integers from the front or the back of a
//! byte buffer.
use crate::convert::Convert;
use crate::digits::{lemma_number_fits, number};
use crate::order::ByteOrder;
use vstd::prelude::*;

verus! {

/// `<[T]>::as_array`: a slice of exactly `N` elements seen as an array of `N`
/// elements, the same ones in the same place; nothing for a slice of any other
/// length.
#[verifier::external_body]
fn whole_as_array<T, const N: usize>(slice: &[T]) -> (array: Option<&[T; N]>)
    ensures
        array is Some <==> slice@.len() == N,
        array is Some ==> array->0@ == slice@,
{
    slice.as_array::<N>()
}

/// A slice of exactly `N` elements seen as an array of `N` elements. Nothing
/// is copied.
pub fn as_array<T, const N: usize>(slice: &[T]) -> (array: &[T; N])
    requires
        slice@.len() == N,
    ensures
        array@ == slice@,
{
    whole_as_array(slice).unwrap()
}

/// What is left of `bytes` after `count` values of `width` bytes each have
/// been read from its front, each from what the one before left.
pub open spec fn left_after(bytes: Seq<u8>, width: nat, count: nat) -> Seq<u8>
    decreases count,
{
    if count == 0 {
        bytes
    } else {
        left_after(bytes, width, (count - 1) as nat).skip(width as int)
    }
}

/// A buffer of `count` times `width` bytes can be read from the front `count`
/// times, `width` bytes at a time: before each read enough is left, the read
/// number `done` takes the bytes from `done * width` on, and after the last
/// one nothing is left.
pub proof fn lemma_chained_reads(bytes: Seq<u8>, width: nat, count: nat)
    requires
        bytes.len() == count * width,
    ensures
        forall|done: nat|
            done <= count ==> #[trigger] left_after(bytes, width, done) == bytes.skip(
                (done * width) as int,
            ),
        forall|done: nat| done < count ==> (#[trigger] left_after(bytes, width, done)).len() >= width,
        left_after(bytes, width, count).len() == 0,
{
    assert forall|done: nat| done <= count implies #[trigger] left_after(bytes, width, done)
        == bytes.skip((done * width) as int) && (done < count ==> left_after(bytes, width, done).len()
        >= width) && (done == count ==> left_after(bytes, width, done).len() == 0) by {
        lemma_left_after(bytes, width, count, done);
    }
}

proof fn lemma_left_after(bytes: Seq<u8>, width: nat, count: nat, done: nat)
    requires
        bytes.len() == count * width,
        done <= count,
    ensures
        left_after(bytes, width, done) == bytes.skip((done * width) as int),
        left_after(bytes, width, done).len() == (count - done) * width,
        done < count ==> (count - done) * width >= width,
    decreases done,
{
    assert((count - done) * width == count * width - done * width && 0 <= done * width <= count
        * width && (done < count ==> (count - done) * width >= width)) by (nonlinear_arith)
        requires
            done <= count,
    ;
    if done == 0 {
        assert(bytes.skip(0) =~= bytes);
    } else {
        lemma_left_after(bytes, width, count, (done - 1) as nat);
        assert(done * width == (done - 1) * width + width && 0 <= (done - 1) * width) by (nonlinear_arith)
            requires
                done >= 1,
        ;
        assert(bytes.skip((done - 1) * width).skip(width as int) =~= bytes.skip((done * width) as int));
    }
}

/// Unsigned integers at the two ends of a byte buffer.
///
/// A read from the front gives the integer that the first bytes hold and what
/// follows them, so that the next read can go on from there. A read from the
/// back gives the integer that the last bytes hold. No read changes the order
/// of the bytes: the integer is the one that the bytes hold in memory. Under
/// its plain name a read works in the byte order of the machine that runs it;
/// with `_in` at the end of its name it takes the byte order as an argument.
pub trait ReadFromSlice {
    /// The bytes of the buffer.
    spec fn bytes(&self) -> Seq<u8>;

    /// The `u16` that the first two bytes hold on a machine of the given byte
    /// order, and the bytes after them.
    fn read_u16_in(&self, order: ByteOrder) -> (read: (u16, &[u8]))
        requires
            self.bytes().len() >= 2,
        ensures
            read.0 == number(self.bytes().take(2), order),
            read.1@ == self.bytes().skip(2),
    ;

    /// The `u16` that the first two bytes hold on this machine, and the bytes
    /// after them.
    fn read_u16(&self) -> (read: (u16, &[u8]))
        requires
            self.bytes().len() >= 2,
        ensures
            read.0 == number(self.bytes().take(2), ByteOrder::Little) || read.0 == number(
                self.bytes().take(2),
                ByteOrder::Big,
            ),
            read.1@ == self.bytes().skip(2),
    ;

    /// The `u32` that the first four bytes hold on a machine of the given byte
    /// order, and the bytes after them.
    fn read_u32_in(&self, order: ByteOrder) -> (read: (u32, &[u8]))
        requires
            self.bytes().len() >= 4,
        ensures
            read.0 == number(self.bytes().take(4), order),
            read.1@ == self.bytes().skip(4),
    ;

    /// The `u32` that the first four bytes hold on this machine, and the bytes
    /// after them.
    fn read_u32(&self) -> (read: (u32, &[u8]))
        requires
            self.bytes().len() >= 4,
        ensures
            read.0 == number(self.bytes().take(4), ByteOrder::Little) || read.0 == number(
                self.bytes().take(4),
                ByteOrder::Big,
            ),
            read.1@ == self.bytes().skip(4),
    ;

    /// The `u64` that the first eight bytes hold on a machine of the given byte
    /// order, and the bytes after them.
    fn read_u64_in(&self, order: ByteOrder) -> (read: (u64, &[u8]))
        requires
            self.bytes().len() >= 8,
        ensures
            read.0 == number(self.bytes().take(8), order),
            read.1@ == self.bytes().skip(8),
    ;

    /// The `u64` that the first eight bytes hold on this machine, and the bytes
    /// after them.
    fn read_u64(&self) -> (read: (u64, &[u8]))
        requires
            self.bytes().len() >= 8,
        ensures
            read.0 == number(self.bytes().take(8), ByteOrder::Little) || read.0 == number(
                self.bytes().take(8),
                ByteOrder::Big,
            ),
            read.1@ == self.bytes().skip(8),
    ;

    /// The `u128` that the first sixteen bytes hold on a machine of the given byte
    /// order, and the bytes after them.
    fn read_u128_in(&self, order: ByteOrder) -> (read: (u128, &[u8]))
        requires
            self.bytes().len() >= 16,
        ensures
            read.0 == number(self.bytes().take(16), order),
            read.1@ == self.bytes().skip(16),
    ;

    /// The `u128` that the first sixteen bytes hold on this machine, and the bytes
    /// after them.
    fn read_u128(&self) -> (read: (u128, &[u8]))
        requires
            self.bytes().len() >= 16,
        ensures
            read.0 == number(self.bytes().take(16), ByteOrder::Little) || read.0 == number(
                self.bytes().take(16),
                ByteOrder::Big,
            ),
            read.1@ == self.bytes().skip(16),
    ;

    /// The `u16` that the last two bytes hold on a machine of the given byte
    /// order.
    fn read_last_u16_in(&self, order: ByteOrder) -> (value: u16)
        requires
            self.bytes().len() >= 2,
        ensures
            value == number(self.bytes().skip(self.bytes().len() - 2), order),
    ;

    /// The `u16` that the last two bytes hold on this machine.
    fn read_last_u16(&self) -> (value: u16)
        requires
            self.bytes().len() >= 2,
        ensures
            value == number(self.bytes().skip(self.bytes().len() - 2), ByteOrder::Little)
                || value == number(self.bytes().skip(self.bytes().len() - 2), ByteOrder::Big),
    ;

    /// The `u32` that the last four bytes hold on a machine of the given byte
    /// order.
    fn read_last_u32_in(&self, order: ByteOrder) -> (value: u32)
        requires
            self.bytes().len() >= 4,
        ensures
            value == number(self.bytes().skip(self.bytes().len() - 4), order),
    ;

    /// The `u32` that the last four bytes hold on this machine.
    fn read_last_u32(&self) -> (value: u32)
        requires
            self.bytes().len() >= 4,
        ensures
            value == number(self.bytes().skip(self.bytes().len() - 4), ByteOrder::Little)
                || value == number(self.bytes().skip(self.bytes().len() - 4), ByteOrder::Big),
    ;

    /// The `u64` that the last eight bytes hold on a machine of the given byte
    /// order.
    fn read_last_u64_in(&self, order: ByteOrder) -> (value: u64)
        requires
            self.bytes().len() >= 8,
        ensures
            value == number(self.bytes().skip(self.bytes().len() - 8), order),
    ;

    /// The `u64` that the last eight bytes hold on this machine.
    fn read_last_u64(&self) -> (value: u64)
        requires
            self.bytes().len() >= 8,
        ensures
            value == number(self.bytes().skip(self.bytes().len() - 8), ByteOrder::Little)
                || value == number(self.bytes().skip(self.bytes().len() - 8), ByteOrder::Big),
    ;

    /// The `u128` that the last sixteen bytes hold on a machine of the given byte
    /// order.
    fn read_last_u128_in(&self, order: ByteOrder) -> (value: u128)
        requires
            self.bytes().len() >= 16,
        ensures
            value == number(self.bytes().skip(self.bytes().len() - 16), order),
    ;

    /// The `u128` that the last sixteen bytes hold on this machine.
    fn read_last_u128(&self) -> (value: u128)
        requires
            self.bytes().len() >= 16,
        ensures
            value == number(self.bytes().skip(self.bytes().len() - 16), ByteOrder::Little)
                || value == number(self.bytes().skip(self.bytes().len() - 16), ByteOrder::Big),
    ;
}

impl ReadFromSlice for [u8] {
    open spec fn bytes(&self) -> Seq<u8> {
        self@
    }

    fn read_u16_in(&self, order: ByteOrder) -> (read: (u16, &[u8])) {
        let (value, rest) = self.split_at(2);
        proof {
            lemma_number_fits(value@, order);
        }
        (as_array::<u8, 2>(value).convert_in(order), rest)
    }

    fn read_u16(&self) -> (read: (u16, &[u8])) {
        self.read_u16_in(ByteOrder::native())
    }

    fn read_u32_in(&self, order: ByteOrder) -> (read: (u32, &[u8])) {
        let (value, rest) = self.split_at(4);
        proof {
            lemma_number_fits(value@, order);
        }
        (as_array::<u8, 4>(value).convert_in(order), rest)
    }

    fn read_u32(&self) -> (read: (u32, &[u8])) {
        self.read_u32_in(ByteOrder::native())
    }

    fn read_u64_in(&self, order: ByteOrder) -> (read: (u64, &[u8])) {
        let (value, rest) = self.split_at(8);
        proof {
            lemma_number_fits(value@, order);
        }
        (as_array::<u8, 8>(value).convert_in(order), rest)
    }

    fn read_u64(&self) -> (read: (u64, &[u8])) {
        self.read_u64_in(ByteOrder::native())
    }

    fn read_u128_in(&self, order: ByteOrder) -> (read: (u128, &[u8])) {
        let (value, rest) = self.split_at(16);
        proof {
            lemma_number_fits(value@, order);
        }
        (as_array::<u8, 16>(value).convert_in(order), rest)
    }

    fn read_u128(&self) -> (read: (u128, &[u8])) {
        self.read_u128_in(ByteOrder::native())
    }

    fn read_last_u16_in(&self, order: ByteOrder) -> (value: u16) {
        let (_, value) = self.split_at(self.len() - 2);
        proof {
            lemma_number_fits(value@, order);
        }
        as_array::<u8, 2>(value).convert_in(order)
    }

    fn read_last_u16(&self) -> (value: u16) {
        self.read_last_u16_in(ByteOrder::native())
    }

    fn read_last_u32_in(&self, order: ByteOrder) -> (value: u32) {
        let (_, value) = self.split_at(self.len() - 4);
        proof {
            lemma_number_fits(value@, order);
        }
        as_array::<u8, 4>(value).convert_in(order)
    }

    fn read_last_u32(&self) -> (value: u32) {
        self.read_last_u32_in(ByteOrder::native())
    }

    fn read_last_u64_in(&self, order: ByteOrder) -> (value: u64) {
        let (_, value) = self.split_at(self.len() - 8);
        proof {
            lemma_number_fits(value@, order);
        }
        as_array::<u8, 8>(value).convert_in(order)
    }

    fn read_last_u64(&self) -> (value: u64) {
        self.read_last_u64_in(ByteOrder::native())
    }

    fn read_last_u128_in(&self, order: ByteOrder) -> (value: u128) {
        let (_, value) = self.split_at(self.len() - 16);
        proof {
            lemma_number_fits(value@, order);
        }
        as_array::<u8, 16>(value).convert_in(order)
    }

    fn read_last_u128(&self) -> (value: u128) {
        self.read_last_u128_in(ByteOrder::native())
    }
}

} // verus!
