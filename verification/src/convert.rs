//! Reinterpretation: a value of one type read as a value of another type of
//! the same size, through the bytes that hold it.
use crate::order::ByteOrder;
use crate::plain::Plain;
use vstd::prelude::*;

verus! {

/// What `value` is when the bytes that hold it are read as a `B`, on a machine
/// of the given byte order.
pub open spec fn cast<A: Plain<W>, B: Plain<W>, const W: usize>(value: A, order: ByteOrder) -> B {
    B::of_image(value.image(order), order)
}

/// `seen` is what `value` is as a `B` in one of the two byte orders: all that
/// can be said of a reinterpretation in the byte order of the machine at hand,
/// whichever that is.
pub open spec fn cast_on_some_machine<A: Plain<W>, B: Plain<W>, const W: usize>(
    value: A,
    seen: B,
) -> bool {
    seen == cast::<A, B, W>(value, ByteOrder::Little) || seen == cast::<A, B, W>(
        value,
        ByteOrder::Big,
    )
}

/// A reinterpretation changes no byte: the result has the image of the value
/// it was made from.
pub proof fn lemma_cast_keeps_image<A: Plain<W>, B: Plain<W>, const W: usize>(
    value: A,
    order: ByteOrder,
)
    ensures
        cast::<A, B, W>(value, order).image(order) == value.image(order),
{
    value.lemma_image(order);
    B::lemma_of_image(value.image(order), order);
}

/// Reinterpreting a value as another type and the result as the first type
/// again gives the value back.
pub proof fn lemma_round_trip<A: Plain<W>, B: Plain<W>, const W: usize>(value: A, order: ByteOrder)
    ensures
        cast::<B, A, W>(cast::<A, B, W>(value, order), order) == value,
{
    lemma_cast_keeps_image::<A, B, W>(value, order);
    value.lemma_image(order);
}

/// `after` is `before` changed through its bytes looked at as a `B`: what
/// `after` shows as a `B` is what `edit` made of what `before` showed.
pub open spec fn edited_in<A: Plain<W>, B: Plain<W>, F: FnOnce(B) -> B, const W: usize>(
    before: A,
    after: A,
    edit: F,
    order: ByteOrder,
) -> bool {
    edit.ensures((cast::<A, B, W>(before, order),), cast::<A, B, W>(after, order))
}

/// Reinterpretation between two types of `W` bytes. It is implemented for the
/// pairs of an unsigned integer and an array of narrower unsigned integers, and
/// of two such arrays, that are listed below, in both directions.
///
/// Every operation comes twice: under its plain name it works in the byte
/// order of the machine that runs it, and with `_in` at the end of its name it
/// takes the byte order as an argument.
pub trait Convert<To: Plain<W>, const W: usize>: Plain<W> {
    /// `self` as a `To`, on a machine of the given byte order.
    fn convert_in(self, order: ByteOrder) -> (to: To)
        ensures
            to == cast::<Self, To, W>(self, order),
            to.image(order) == self.image(order),
    {
        proof {
            lemma_cast_keeps_image::<Self, To, W>(self, order);
        }
        To::from_bytes(self.to_bytes(order), order)
    }

    /// `self` as a `To`, on this machine.
    fn convert(self) -> (to: To)
        ensures
            cast_on_some_machine::<Self, To, W>(self, to),
    {
        self.convert_in(ByteOrder::native())
    }

    /// What the bytes of `self` show when they are looked at as a `To`, on a
    /// machine of the given byte order. `self` stays as it is.
    fn convert_ref_in(&self, order: ByteOrder) -> (to: To)
        ensures
            to == cast::<Self, To, W>(*self, order),
            to.image(order) == self.image(order),
    {
        (*self).convert_in(order)
    }

    /// What the bytes of `self` show when they are looked at as a `To`, on
    /// this machine. `self` stays as it is.
    fn convert_ref(&self) -> (to: To)
        ensures
            cast_on_some_machine::<Self, To, W>(*self, to),
    {
        (*self).convert()
    }

    /// Changes `self` through its bytes looked at as a `To`, on a machine of
    /// the given byte order: `edit` is given what they show and returns what
    /// they are to show. Afterwards `self` shows exactly that.
    fn convert_mut_ref_in<F: FnOnce(To) -> To>(&mut self, order: ByteOrder, edit: F)
        requires
            edit.requires((cast::<Self, To, W>(*old(self), order),)),
        ensures
            edited_in::<Self, To, F, W>(*old(self), *final(self), edit, order),
    {
        let shown: To = self.convert_ref_in(order);
        let wanted: To = edit(shown);
        proof {
            wanted.lemma_image(order);
            lemma_round_trip::<To, Self, W>(wanted, order);
        }
        *self = Self::from_bytes(wanted.to_bytes(order), order);
    }

    /// Changes `self` through its bytes looked at as a `To`, on this machine:
    /// `edit` is given what they show and returns what they are to show.
    /// Afterwards `self` shows exactly that.
    fn convert_mut_ref<F: FnOnce(To) -> To>(&mut self, edit: F)
        requires
            edit.requires((cast::<Self, To, W>(*old(self), ByteOrder::Little),)),
            edit.requires((cast::<Self, To, W>(*old(self), ByteOrder::Big),)),
        ensures
            edited_in::<Self, To, F, W>(*old(self), *final(self), edit, ByteOrder::Little)
                || edited_in::<Self, To, F, W>(*old(self), *final(self), edit, ByteOrder::Big),
    {
        self.convert_mut_ref_in(ByteOrder::native(), edit)
    }
}

// Sixteen bytes.
impl Convert<[u64; 2], 16> for u128 {
}

impl Convert<u128, 16> for [u64; 2] {
}

impl Convert<[u32; 4], 16> for u128 {
}

impl Convert<u128, 16> for [u32; 4] {
}

impl Convert<[u16; 8], 16> for u128 {
}

impl Convert<u128, 16> for [u16; 8] {
}

impl Convert<[u8; 16], 16> for u128 {
}

impl Convert<u128, 16> for [u8; 16] {
}

impl Convert<[u32; 4], 16> for [u64; 2] {
}

impl Convert<[u64; 2], 16> for [u32; 4] {
}

impl Convert<[u16; 8], 16> for [u64; 2] {
}

impl Convert<[u64; 2], 16> for [u16; 8] {
}

impl Convert<[u8; 16], 16> for [u64; 2] {
}

impl Convert<[u64; 2], 16> for [u8; 16] {
}

impl Convert<[u16; 8], 16> for [u32; 4] {
}

impl Convert<[u32; 4], 16> for [u16; 8] {
}

impl Convert<[u8; 16], 16> for [u32; 4] {
}

impl Convert<[u32; 4], 16> for [u8; 16] {
}

impl Convert<[u8; 16], 16> for [u16; 8] {
}

impl Convert<[u16; 8], 16> for [u8; 16] {
}

// Eight bytes.
impl Convert<[u32; 2], 8> for u64 {
}

impl Convert<u64, 8> for [u32; 2] {
}

impl Convert<[u16; 4], 8> for u64 {
}

impl Convert<u64, 8> for [u16; 4] {
}

impl Convert<[u8; 8], 8> for u64 {
}

impl Convert<u64, 8> for [u8; 8] {
}

impl Convert<[u16; 4], 8> for [u32; 2] {
}

impl Convert<[u32; 2], 8> for [u16; 4] {
}

impl Convert<[u8; 8], 8> for [u32; 2] {
}

impl Convert<[u32; 2], 8> for [u8; 8] {
}

// Four bytes.
impl Convert<[u16; 2], 4> for u32 {
}

impl Convert<u32, 4> for [u16; 2] {
}

impl Convert<[u8; 4], 4> for u32 {
}

impl Convert<u32, 4> for [u8; 4] {
}

impl Convert<[u8; 4], 4> for [u16; 2] {
}

impl Convert<[u16; 2], 4> for [u8; 4] {
}

// Two bytes.
impl Convert<[u8; 2], 2> for u16 {
}

impl Convert<u16, 2> for [u8; 2] {
}

} // verus!
