//! The arithmetic and the decisions of the zlib compressor that the proxy
//! drives: the size of each allocation made for zlib, and when a deflate
//! call has finished compressing a message.
use vstd::prelude::*;

verus! {

/// The compressor failed.
#[derive(Debug, PartialEq, Eq)]
pub enum Error {
    Compressing,
}

/// A positive power of two, by its bits.
pub open spec fn is_power_of_two(align: usize) -> bool {
    align > 0 && align & ((align - 1) as usize) == 0
}

/// Rounds `size` up to a multiple of `align`: the result is the one number
/// from `size` to `size + align - 1` whose bits below `align` are clear.
pub fn align_up(size: usize, align: usize) -> (r: usize)
    requires
        is_power_of_two(align),
        size + align - 1 <= usize::MAX,
    ensures
        r & ((align - 1) as usize) == 0,
        r % align == 0,
        size <= r < size + align,
{
    let r = (size + (align - 1)) & !(align - 1);
    assert(r & ((align - 1) as usize) == 0 && size <= r && r < size + align) by (bit_vector)
        requires
            align > 0,
            align & ((align - 1) as usize) == 0,
            size + align - 1 == ((size + align - 1) as usize),
            r == ((size + ((align - 1) as usize)) as usize) & !((align - 1) as usize),
    ;
    proof {
        lemma_clear_low_bits_is_multiple(r, align);
    }
    r
}

/// What clearing the bits below a power of two `a` shows of `x`, and of
/// `a`, one bit down.
proof fn lemma_halve_clear_low_bits(x: usize, a: usize)
    by (bit_vector)
    requires
        a > 1,
        a & ((a - 1) as usize) == 0,
        x & ((a - 1) as usize) == 0,
    ensures
        x % 2 == 0,
        a % 2 == 0,
        (a / 2) & ((a / 2 - 1) as usize) == 0,
        (x / 2) & ((a / 2 - 1) as usize) == 0,
{
}

/// A number whose bits below a power of two `a` are clear is a multiple of
/// `a`.
proof fn lemma_clear_low_bits_is_multiple(x: usize, a: usize)
    requires
        is_power_of_two(a),
        x & ((a - 1) as usize) == 0,
    ensures
        x % a == 0,
    decreases a,
{
    if a > 1 {
        lemma_halve_clear_low_bits(x, a);
        let h = (a / 2) as usize;
        let y = (x / 2) as usize;
        lemma_clear_low_bits_is_multiple(y, h);
        let q = y / h;
        assert(y == h * q) by (nonlinear_arith)
            requires
                h > 0,
                y % h == 0,
                q == y / h,
        ;
        assert(x == a * q) by (nonlinear_arith)
            requires
                x == 2 * y,
                a == 2 * h,
                y == h * q,
        ;
        vstd::arithmetic::div_mod::lemma_mod_multiples_basic(q as int, a as int);
        assert(x % a == 0) by (nonlinear_arith)
            requires
                x == a * q,
                (q * a) % (a as int) == 0,
        ;
    }
}

/// Below `align` (a power of two) past `size`, one number only has its bits
/// below `align` clear.
proof fn lemma_aligned_unique(size: usize, align: usize, a: usize, b: usize)
    by (bit_vector)
    requires
        align > 0,
        align & ((align - 1) as usize) == 0,
        size <= a < size + align,
        size <= b < size + align,
        a & ((align - 1) as usize) == 0,
        b & ((align - 1) as usize) == 0,
    ensures
        a == b,
{
}

/// The size of an allocation that zlib asks for: `items * item_size` bytes,
/// rounded up to `align`, behind a header of one `usize` that records the
/// size for the matching free. There is none (the allocation fails) when
/// the product does not fit in 32 bits or the total does not fit in `usize`.
pub fn zalloc_size(items: u32, item_size: u32, align: usize) -> (r: Option<usize>)
    requires
        is_power_of_two(align),
        items * item_size <= u32::MAX ==> items * item_size + align - 1 <= usize::MAX,
    ensures
        match r {
            None => items * item_size > u32::MAX || forall|a: usize|
                items * item_size <= a < items * item_size + align && #[trigger] (a & ((align
                    - 1) as usize)) == 0 ==> a + vstd::layout::size_of::<usize>() > usize::MAX,
            Some(total) => {
                let a = total - vstd::layout::size_of::<usize>();
                &&& items * item_size <= u32::MAX
                &&& items * item_size <= a < items * item_size + align
                &&& (a as usize) & ((align - 1) as usize) == 0
            },
        },
{
    let size = match items.checked_mul(item_size) {
        Some(size) => size as usize,
        None => return None,
    };
    let aligned = align_up(size, align);
    let header = std::mem::size_of::<usize>();
    match aligned.checked_add(header) {
        Some(total) => Some(total),
        None => {
            assert forall|a: usize|
                items * item_size <= a < items * item_size + align && #[trigger] (a & ((align
                    - 1) as usize)) == 0 implies a + vstd::layout::size_of::<usize>() > usize::MAX by {
                lemma_aligned_unique(size, align, a, aligned);
            }
            None
        },
    }
}

/// What a call of zlib's `deflate` returned, as far as the compressor tells
/// it apart.
#[derive(Clone, Copy, Debug, PartialEq, Eq)]
pub enum DeflateStatus {
    /// `Z_OK`.
    Progress,
    /// `Z_BUF_ERROR`: no progress was possible.
    BufError,
    /// Any other code.
    Failed,
}

/// Decides after a `deflate` call with `Z_SYNC_FLUSH`, from what it
/// returned and what is left of the input and of the output space, whether
/// compression is done (`Some(Ok)`), has failed (`Some(Err)`), or goes on
/// with more output space (`None`).
pub fn deflate_outcome(status: DeflateStatus, avail_in: u32, avail_out: u32) -> (r: Option<
    Result<(), Error>,
>)
    ensures
        r == (match status {
            DeflateStatus::Failed => Some(Err(Error::Compressing)),
            _ => if avail_in == 0 && avail_out > 0 {
                Some(Ok(()))
            } else {
                None
            },
        }),
{
    match status {
        DeflateStatus::Progress | DeflateStatus::BufError => {
            if avail_in == 0 && avail_out > 0 {
                Some(Ok(()))
            } else {
                None
            }
        },
        DeflateStatus::Failed => Some(Err(Error::Compressing)),
    }
}

} // verus!
