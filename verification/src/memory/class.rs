//! Size classes: which block size serves a request, and from which kind of
//! page.

use vstd::prelude::*;
use crate::memory::{
    HUGE_PAGE_SHIFT,
    HUGE_PAGE_SIZE,
    MID_PAGE_SHIFT,
    MID_PAGE_SIZE,
    SEGMENT_SIZE,
    SMALL_PAGE_SHIFT,
    SMALL_PAGE_SIZE,
};

verus! {

/// Smallest block, and the granularity of the smallest classes: one link of a
/// free list.
pub const WORD: u64 = 8;

/// Largest block size that has a slot of its own in the direct table.
pub const DIRECT_MAX: u64 = 1024;

/// Number of slots in the direct table.
pub const DIRECT_SLOTS: usize = 128;

/// Granularity of the small classes above the direct table.
pub const QUEUE_STEP: u64 = 1024;

/// Largest block size that is served from a small page.
pub const SMALL_BLOCK_MAX: u64 = 16384;

/// The three kinds of page. All pages of a segment are of one kind.
#[derive(Clone, Copy, Debug, PartialEq, Eq, Structural)]
pub enum PageType {
    /// 64 KiB, sliced into many blocks of one size.
    Small,
    /// 512 KiB, one block.
    Mid,
    /// 4 MiB, one block.
    Huge,
}

impl PageType {
    /// Size of a page of this kind, in bytes.
    pub open spec fn size_spec(self) -> u64 {
        match self {
            PageType::Small => SMALL_PAGE_SIZE,
            PageType::Mid => MID_PAGE_SIZE,
            PageType::Huge => HUGE_PAGE_SIZE,
        }
    }

    /// Binary logarithm of the page size.
    pub open spec fn shift_spec(self) -> u64 {
        match self {
            PageType::Small => SMALL_PAGE_SHIFT,
            PageType::Mid => MID_PAGE_SHIFT,
            PageType::Huge => HUGE_PAGE_SHIFT,
        }
    }

    /// Number of pages of this kind that a segment holds.
    pub open spec fn per_segment_spec(self) -> usize {
        match self {
            PageType::Small => 64,
            PageType::Mid => 8,
            PageType::Huge => 1,
        }
    }

    /// Size of a page of this kind, in bytes.
    pub fn size(self) -> (bytes: u64)
        ensures
            bytes == self.size_spec(),
            bytes * self.per_segment_spec() == SEGMENT_SIZE,
    {
        match self {
            PageType::Small => SMALL_PAGE_SIZE,
            PageType::Mid => MID_PAGE_SIZE,
            PageType::Huge => HUGE_PAGE_SIZE,
        }
    }

    /// Binary logarithm of the page size.
    pub fn shift(self) -> (bits: u64)
        ensures
            bits == self.shift_spec(),
    {
        match self {
            PageType::Small => SMALL_PAGE_SHIFT,
            PageType::Mid => MID_PAGE_SHIFT,
            PageType::Huge => HUGE_PAGE_SHIFT,
        }
    }

    /// Number of pages of this kind that a segment holds.
    pub fn per_segment(self) -> (count: usize)
        ensures
            count == self.per_segment_spec(),
    {
        match self {
            PageType::Small => 64,
            PageType::Mid => 8,
            PageType::Huge => 1,
        }
    }
}

/// The page size is two to the power of the shift.
pub proof fn lemma_page_size_is_shifted(kind: PageType)
    ensures
        kind.size_spec() == 1u64 << kind.shift_spec(),
{
    assert(65536u64 == 1u64 << 16u64) by (bit_vector);
    assert(524288u64 == 1u64 << 19u64) by (bit_vector);
    assert(4194304u64 == 1u64 << 22u64) by (bit_vector);
}

/// Whether `align` is an alignment that a request may ask for: a power of
/// two.
pub open spec fn valid_align(align: u64) -> bool {
    align != 0 && align & ((align - 1) as u64) == 0
}

/// `n` rounded up to a multiple of `unit`.
pub open spec fn round_up(n: int, unit: int) -> int {
    ((n + unit - 1) / unit) * unit
}

/// The unit to which a request is padded: its alignment, but at least a word.
pub open spec fn unit_of(align: u64) -> u64 {
    if align > WORD {
        align
    } else {
        WORD
    }
}

/// The bytes a request needs: its size, at least one byte, rounded up to its
/// unit.
pub open spec fn padded(size: u64, align: u64) -> int {
    round_up(if size == 0 { 1 } else { size as int }, unit_of(align) as int)
}

/// A size class: the block size, and the kind of page that holds such blocks.
#[derive(Clone, Copy, Debug, PartialEq, Eq, Structural)]
pub struct SizeClass {
    pub block_size: u64,
    pub kind: PageType,
}

/// Number of page queues: one for each small class above the direct table,
/// one for the mid class and one for the huge class.
pub const QUEUE_COUNT: usize = 17;

impl SizeClass {
    /// The slot of the class in the direct table, if it has one.
    pub open spec fn direct_slot(self) -> Option<usize> {
        if self.kind is Small && WORD <= self.block_size <= DIRECT_MAX {
            Some((self.block_size / WORD - 1) as usize)
        } else {
            None
        }
    }

    /// The queue of the class, if it has one.
    pub open spec fn queue(self) -> Option<usize> {
        match self.kind {
            PageType::Small => if DIRECT_MAX < self.block_size <= SMALL_BLOCK_MAX {
                Some(((self.block_size - 1) / (QUEUE_STEP as int) - 1) as usize)
            } else {
                None
            },
            PageType::Mid => Some(15),
            PageType::Huge => Some(16),
        }
    }

    /// Finds the slot of the class in the direct table.
    pub fn find_direct_slot(self) -> (slot: Option<usize>)
        ensures
            slot == self.direct_slot(),
            slot matches Some(index) ==> index < DIRECT_SLOTS,
    {
        match self.kind {
            PageType::Small => if WORD <= self.block_size && self.block_size <= DIRECT_MAX {
                Some((self.block_size / WORD - 1) as usize)
            } else {
                None
            },
            _ => None,
        }
    }

    /// Finds the queue of the class.
    pub fn find_queue(self) -> (queue: Option<usize>)
        ensures
            queue == self.queue(),
            queue matches Some(index) ==> index < QUEUE_COUNT,
    {
        match self.kind {
            PageType::Small => if DIRECT_MAX < self.block_size && self.block_size
                <= SMALL_BLOCK_MAX {
                Some(((self.block_size - 1) / QUEUE_STEP - 1) as usize)
            } else {
                None
            },
            PageType::Mid => Some(15),
            PageType::Huge => Some(16),
        }
    }
}

/// Why a request has no size class.
#[derive(Clone, Copy, Debug, PartialEq, Eq, Structural)]
pub enum ClassError {
    /// The alignment is not a power of two.
    BadAlignment,
    /// The request, padded to its alignment, exceeds the largest page.
    TooLarge,
}

/// The size class of a request.
///
/// Up to `DIRECT_MAX` bytes every multiple of the unit is a class. Above
/// that, small classes are multiples of `QUEUE_STEP`. What is too large for a
/// small page gets a page of its own.
pub open spec fn class_of(size: u64, align: u64) -> Result<SizeClass, ClassError> {
    if !valid_align(align) {
        Err(ClassError::BadAlignment)
    } else if size > HUGE_PAGE_SIZE || align > HUGE_PAGE_SIZE || padded(size, align)
        > HUGE_PAGE_SIZE {
        Err(ClassError::TooLarge)
    } else {
        let need = padded(size, align);
        if need <= DIRECT_MAX {
            Ok(SizeClass { block_size: need as u64, kind: PageType::Small })
        } else if need <= SMALL_BLOCK_MAX {
            Ok(
                SizeClass {
                    block_size: round_up(need, QUEUE_STEP as int) as u64,
                    kind: PageType::Small,
                },
            )
        } else if need <= MID_PAGE_SIZE {
            Ok(SizeClass { block_size: MID_PAGE_SIZE, kind: PageType::Mid })
        } else {
            Ok(SizeClass { block_size: HUGE_PAGE_SIZE, kind: PageType::Huge })
        }
    }
}

/// A power of two up to the segment size is one of twenty-three values.
pub proof fn lemma_valid_align_values(align: u64)
    requires
        valid_align(align),
        align <= SEGMENT_SIZE,
    ensures
        align == 1 || align == 2 || align == 4 || align == 8 || align == 16 || align == 32
            || align == 64 || align == 128 || align == 256 || align == 512 || align == 1024
            || align == 2048 || align == 4096 || align == 8192 || align == 16384 || align
            == 32768 || align == 65536 || align == 131072 || align == 262144 || align == 524288
            || align == 1048576 || align == 2097152 || align == 4194304,
{
    assert(align != 0 && align & ((align - 1) as u64) == 0 && align <= 4194304 ==> align == 1 || align
        == 2 || align == 4 || align == 8 || align == 16 || align == 32 || align == 64 || align
        == 128 || align == 256 || align == 512 || align == 1024 || align == 2048 || align == 4096
        || align == 8192 || align == 16384 || align == 32768 || align == 65536 || align == 131072
        || align == 262144 || align == 524288 || align == 1048576 || align == 2097152 || align
        == 4194304) by (bit_vector);
}

/// Rounding up reaches the next multiple and goes no further.
pub proof fn lemma_round_up(n: int, unit: int)
    requires
        n >= 0,
        unit > 0,
    ensures
        n <= round_up(n, unit) < n + unit,
        round_up(n, unit) % unit == 0,
        n % unit == 0 ==> round_up(n, unit) == n,
{
    let q = (n + unit - 1) / unit;
    vstd::arithmetic::div_mod::lemma_fundamental_div_mod(n + unit - 1, unit);
    vstd::arithmetic::div_mod::lemma_mod_bound(n + unit - 1, unit);
    vstd::arithmetic::div_mod::lemma_mod_multiples_basic(q, unit);
    assert(unit * q == q * unit) by (nonlinear_arith);
    if n % unit == 0 {
        vstd::arithmetic::div_mod::lemma_fundamental_div_mod(n, unit);
        let k = n / unit;
        assert(n == unit * k);
        // n + unit - 1 = unit * k + (unit - 1), so the quotient is k.
        vstd::arithmetic::div_mod::lemma_fundamental_div_mod_converse(
            n + unit - 1,
            unit,
            k,
            unit - 1,
        );
        assert(q == k);
        assert(k * unit == unit * k) by (nonlinear_arith);
    }
}

/// `n` rounded up to a multiple of `unit`.
pub fn round_up_to(n: u64, unit: u64) -> (r: u64)
    requires
        unit > 0,
        n + unit <= u64::MAX,
    ensures
        r == round_up(n as int, unit as int),
        n <= r < n + unit,
        r % unit == 0,
{
    proof {
        lemma_round_up(n as int, unit as int);
    }
    ((n + unit - 1) / unit) * unit
}

/// Whether `align` is a power of two.
pub fn is_valid_align(align: u64) -> (yes: bool)
    ensures
        yes == valid_align(align),
{
    align != 0 && align & (align - 1) == 0
}

/// Finds the size class of a request of `size` bytes aligned to `align`.
pub fn size_class(size: u64, align: u64) -> (class: Result<SizeClass, ClassError>)
    ensures
        class == class_of(size, align),
{
    if !is_valid_align(align) {
        return Err(ClassError::BadAlignment);
    }
    if size > HUGE_PAGE_SIZE || align > HUGE_PAGE_SIZE {
        return Err(ClassError::TooLarge);
    }
    let unit: u64 = if align > WORD {
        align
    } else {
        WORD
    };
    let wanted: u64 = if size == 0 {
        1
    } else {
        size
    };
    let need: u64 = round_up_to(wanted, unit);
    if need > HUGE_PAGE_SIZE {
        Err(ClassError::TooLarge)
    } else if need <= DIRECT_MAX {
        Ok(SizeClass { block_size: need, kind: PageType::Small })
    } else if need <= SMALL_BLOCK_MAX {
        Ok(SizeClass { block_size: round_up_to(need, QUEUE_STEP), kind: PageType::Small })
    } else if need <= MID_PAGE_SIZE {
        Ok(SizeClass { block_size: MID_PAGE_SIZE, kind: PageType::Mid })
    } else {
        Ok(SizeClass { block_size: HUGE_PAGE_SIZE, kind: PageType::Huge })
    }
}

/// What every size class promises: a block is large enough for the request,
/// a multiple of its alignment and of the word, and no larger than a page of
/// its kind. Every request of at most `HUGE_PAGE_SIZE` bytes whose alignment
/// is a power of two up to the word has a class.
pub proof fn lemma_class_fits(size: u64, align: u64)
    ensures
        class_of(size, align) matches Ok(class) ==> {
            &&& class.block_size >= size
            &&& class.block_size >= WORD
            &&& class.block_size % align == 0
            &&& class.block_size % WORD == 0
            &&& class.block_size <= class.kind.size_spec()
            &&& class.kind is Small ==> class.block_size <= SMALL_BLOCK_MAX
            &&& class.kind is Mid ==> class.block_size == MID_PAGE_SIZE
            &&& class.kind is Huge ==> class.block_size == HUGE_PAGE_SIZE
        },
        valid_align(align) && align <= WORD && size <= HUGE_PAGE_SIZE ==> class_of(
            size,
            align,
        ) is Ok,
{
    if valid_align(align) && align <= HUGE_PAGE_SIZE && size <= HUGE_PAGE_SIZE {
        lemma_align_divides(align);
        let unit = unit_of(align) as int;
        let wanted: int = if size == 0 {
            1
        } else {
            size as int
        };
        let need = padded(size, align);
        lemma_round_up(wanted, unit);
        assert(unit % (align as int) == 0);
        assert(unit % 8 == 0);
        lemma_multiple_of_multiple(need, unit, align as int);
        lemma_multiple_of_multiple(need, unit, 8);
        if align <= WORD {
            assert(unit == 8);
            assert(HUGE_PAGE_SIZE % 8 == 0);
            if size > 0 {
                lemma_round_up_monotone(wanted, HUGE_PAGE_SIZE as int, 8);
                lemma_round_up(HUGE_PAGE_SIZE as int, 8);
            }
        }
        if need <= HUGE_PAGE_SIZE {
            if need <= DIRECT_MAX {
            } else if need <= SMALL_BLOCK_MAX {
                let rounded = round_up(need, QUEUE_STEP as int);
                lemma_round_up(need, QUEUE_STEP as int);
                lemma_round_up_monotone(need, SMALL_BLOCK_MAX as int, QUEUE_STEP as int);
                lemma_round_up(SMALL_BLOCK_MAX as int, QUEUE_STEP as int);
                lemma_multiple_of_multiple(rounded, 1024, 8);
                if unit <= 1024 {
                    assert(1024int % unit == 0);
                    lemma_multiple_of_multiple(rounded, 1024, unit);
                    lemma_multiple_of_multiple(rounded, unit, align as int);
                } else {
                    assert(unit % 1024 == 0);
                    lemma_multiple_of_multiple(need, unit, 1024);
                    assert(rounded == need);
                }
            } else if need <= MID_PAGE_SIZE {
                if need < unit {
                    vstd::arithmetic::div_mod::lemma_small_mod(need as nat, unit as nat);
                }
                assert(align <= MID_PAGE_SIZE);
            } else {
                
            }
        }
    }
}

/// A power of two divides every page size and every class granularity that
/// is not smaller than it.
pub proof fn lemma_align_divides(align: u64)
    requires
        valid_align(align),
        align <= SEGMENT_SIZE,
    ensures
        align % align == 0,
        align <= WORD ==> WORD % align == 0,
        align >= WORD ==> align % WORD == 0,
        align <= QUEUE_STEP ==> QUEUE_STEP % align == 0,
        align >= QUEUE_STEP ==> align % QUEUE_STEP == 0,
        align <= SMALL_PAGE_SIZE ==> SMALL_PAGE_SIZE % align == 0,
        align <= MID_PAGE_SIZE ==> MID_PAGE_SIZE % align == 0,
        SEGMENT_SIZE % align == 0,
{
    lemma_valid_align_values(align);
}

/// A multiple of a multiple of `c` is a multiple of `c`.
pub proof fn lemma_multiple_of_multiple(a: int, b: int, c: int)
    requires
        b > 0,
        c > 0,
        a % b == 0,
        b % c == 0,
    ensures
        a % c == 0,
{
    vstd::arithmetic::div_mod::lemma_fundamental_div_mod(a, b);
    vstd::arithmetic::div_mod::lemma_fundamental_div_mod(b, c);
    let x = a / b;
    let y = b / c;
    assert(a == (c * y) * x);
    assert((c * y) * x == (y * x) * c) by (nonlinear_arith);
    vstd::arithmetic::div_mod::lemma_mod_multiples_basic(y * x, c);
}

/// Rounding up keeps the order.
pub proof fn lemma_round_up_monotone(a: int, b: int, unit: int)
    requires
        0 <= a <= b,
        unit > 0,
    ensures
        round_up(a, unit) <= round_up(b, unit),
{
    vstd::arithmetic::div_mod::lemma_div_is_ordered(a + unit - 1, b + unit - 1, unit);
    assert((a + unit - 1) / unit * unit <= (b + unit - 1) / unit * unit) by (nonlinear_arith)
        requires
            (a + unit - 1) / unit <= (b + unit - 1) / unit,
            unit > 0,
    ;
}

} // verus!
