//! Growable bit buffers, kept in `bitvec`'s `BitVec`.

use bitvec::order::Lsb0;
use bitvec::order::Msb0;
use bitvec::vec::BitVec;
use bitvec::view::BitView;
use vstd::arithmetic::div_mod::lemma_div_of0;
use vstd::arithmetic::power2::lemma_pow2_pos;
use vstd::arithmetic::power2::pow2;
use vstd::prelude::*;

verus! {

/// A growable run of bits, held in a `bitvec::vec::BitVec`. The verifier sees
/// nothing of its inside; `bits_of` names what it holds.
#[verifier::external_body]
pub struct BitBuffer {
    inner: BitVec<usize, Lsb0>,
}

/// The bits a buffer holds, first to last.
pub uninterp spec fn bits_of(buffer: BitBuffer) -> Seq<bool>;

/// Most bits a `BitVec` can hold: an eighth of the address space.
pub open spec fn max_bits() -> int {
    (usize::MAX as int) / 8
}

/// The low `width` bits of `value`, most significant first.
pub open spec fn msb_first(value: nat, width: nat) -> Seq<bool> {
    Seq::new(width, |i: int| (value / pow2((width - 1 - i) as nat)) % 2 == 1)
}

/// `n` clear bits.
pub open spec fn zeros(n: nat) -> Seq<bool> {
    Seq::new(n, |i: int| false)
}

/// Bits missing from `len` to the next multiple of eight.
pub open spec fn padding_len(len: nat) -> nat {
    ((8 - len % 8) % 8) as nat
}

/// `BitVec::new`: a buffer that holds nothing.
#[verifier::external_body]
pub(crate) fn bitvec_new() -> (buffer: BitBuffer)
    ensures
        bits_of(buffer) == Seq::<bool>::empty(),
{
    BitBuffer { inner: BitVec::new() }
}

/// `BitVec::repeat`: a buffer of `len` bits, each equal to `bit`. The call
/// panics when `len` exceeds what a bit-vector can address.
#[verifier::external_body]
pub(crate) fn bitvec_repeat(bit: bool, len: usize) -> (buffer: BitBuffer)
    requires
        len <= max_bits(),
    ensures
        bits_of(buffer) == Seq::new(len as nat, |i: int| bit),
{
    BitBuffer { inner: BitVec::repeat(bit, len) }
}

/// `BitVec::len`: the number of bits held.
#[verifier::external_body]
pub(crate) fn bitvec_len(buffer: &BitBuffer) -> (n: usize)
    ensures
        n == bits_of(*buffer).len(),
{
    buffer.inner.len()
}

/// `BitSlice::set`, reached through `BitVec`: overwrites the bit at `index`
/// and leaves every other bit alone. The call panics when `index` is out of
/// bounds, and only then.
#[verifier::external_body]
pub(crate) fn bitvec_set(buffer: &mut BitBuffer, index: usize, value: bool)
    requires
        index < bits_of(*old(buffer)).len(),
    ensures
        bits_of(*final(buffer)) == bits_of(*old(buffer)).update(index as int, value),
    no_unwind
{
    buffer.inner.set(index, value);
}

/// `BitSlice`'s `Index<usize>`, reached through `BitVec`: the bit at `index`.
/// The call panics when `index` is out of bounds.
#[verifier::external_body]
pub(crate) fn bitvec_index(buffer: &BitBuffer, index: usize) -> (bit: bool)
    requires
        index < bits_of(*buffer).len(),
    ensures
        bit == bits_of(*buffer)[index as int],
{
    buffer.inner[index]
}

/// `BitSlice::get`, reached through `BitVec`: the bit at `index`, or `None`
/// when `index` is out of bounds.
#[verifier::external_body]
pub(crate) fn bitvec_get(buffer: &BitBuffer, index: usize) -> (bit: Option<bool>)
    ensures
        bit == if index < bits_of(*buffer).len() {
            Some(bits_of(*buffer)[index as int])
        } else {
            None
        },
{
    buffer.inner.get(index).as_deref().copied()
}

/// `BitVec::extend_from_bitslice` on `BitView::view_bits::<Msb0>` of a `u16`,
/// sliced from `start`: the sixteen bits of `value`, most significant first,
/// without their first `start`, are appended. Slicing panics when `start` is
/// past sixteen, and the buffer panics when it would outgrow `max_bits`.
#[verifier::external_body]
pub(crate) fn bitvec_extend_msb0(buffer: &mut BitBuffer, value: u16, start: usize)
    requires
        start <= 16,
        bits_of(*old(buffer)).len() + (16 - start) <= max_bits(),
    ensures
        bits_of(*final(buffer)) == bits_of(*old(buffer)) + msb_first(value as nat, 16).skip(
            start as int,
        ),
{
    buffer.inner.extend_from_bitslice(&value.view_bits::<Msb0>()[start..]);
}

/// Dropping the leading bits of a wider field leaves the narrower field.
pub proof fn lemma_msb_first_skip(value: nat, wide: nat, width: nat)
    requires
        width <= wide,
    ensures
        msb_first(value, wide).skip(wide - width) == msb_first(value, width),
{
    assert(msb_first(value, wide).skip(wide - width) =~= msb_first(value, width));
}

/// Zero has only clear bits.
pub proof fn lemma_msb_first_zero(width: nat)
    ensures
        msb_first(0, width) == zeros(width),
{
    assert forall|i: int| 0 <= i < width implies msb_first(0, width)[i] == false by {
        lemma_pow2_pos((width - 1 - i) as nat);
        lemma_div_of0(pow2((width - 1 - i) as nat) as int);
    }
    assert(msb_first(0, width) =~= zeros(width));
}

impl BitBuffer {
    /// Appends the low `width` bits of `value`, most significant first.
    pub(crate) fn append_low_bits(&mut self, value: u16, width: usize)
        requires
            width <= 16,
            bits_of(*old(self)).len() + width <= max_bits(),
        ensures
            bits_of(*final(self)) == bits_of(*old(self)) + msb_first(value as nat, width as nat),
    {
        proof {
            lemma_msb_first_skip(value as nat, 16, width as nat);
        }
        bitvec_extend_msb0(self, value, 16 - width);
    }

    /// Appends clear bits up to the next multiple of eight.
    pub(crate) fn pad_to_byte(&mut self)
        requires
            bits_of(*old(self)).len() + 7 <= max_bits(),
        ensures
            bits_of(*final(self)) == bits_of(*old(self)) + zeros(
                padding_len(bits_of(*old(self)).len()),
            ),
            bits_of(*final(self)).len() % 8 == 0,
    {
        let rest: usize = bitvec_len(self) % 8;
        if rest != 0 {
            proof {
                lemma_msb_first_zero((8 - rest) as nat);
            }
            self.append_low_bits(0, 8 - rest);
        } else {
            assert(bits_of(*self) + zeros(0) =~= bits_of(*self));
        }
    }
}

} // verus!
