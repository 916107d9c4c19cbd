//! Address hints for new mappings.
//!
//! One process-wide cursor walks upwards through a window of the address
//! space. Each request takes the cursor's value as its hint and moves the
//! cursor on by the size it is about to map, so that segments end up spread
//! out and aligned to their own size. When the cursor leaves the window it is
//! put back to the window's base.

use vstd::prelude::*;
use core::sync::atomic::AtomicU64;
use core::sync::atomic::Ordering;
use crate::memory::SEGMENT_SIZE;

verus! {

/// Where the cursor starts, and where it returns to: 4 TiB.
pub const HINT_BASE: u64 = 0x0400_0000_0000;

/// The highest hint that is handed out: 30 TiB.
pub const HINT_CEILING: u64 = 0x1e00_0000_0000;

/// The largest request size for which a hint below the ceiling plus the size
/// cannot wrap around the address range.
pub const MAX_STRIDE: u64 = 0xffff_e1ff_ffff_ffff;

/// Whether hints are produced for `alignment`: only for a non-zero multiple of
/// the segment size that does not exceed it, which is the segment size itself.
pub open spec fn honoured(alignment: u64) -> bool {
    alignment != 0 && alignment <= SEGMENT_SIZE && alignment % SEGMENT_SIZE == 0
}

/// Whether a cursor value must not be used as a hint: the cursor has never
/// been set, or it has left the window.
pub open spec fn exhausted(cursor: u64) -> bool {
    cursor == 0 || cursor > HINT_CEILING
}

/// The hint that a cursor value yields: the value itself if it is aligned,
/// and zero, "let the system choose", otherwise.
pub open spec fn checked(hint: u64, alignment: u64) -> u64 {
    if alignment != 0 && hint % alignment == 0 {
        hint
    } else {
        0
    }
}

/// Whether hints are produced for `alignment`.
pub fn is_honoured(alignment: u64) -> (yes: bool)
    ensures
        yes == honoured(alignment),
        yes <==> alignment == SEGMENT_SIZE,
{
    alignment != 0 && alignment <= SEGMENT_SIZE && alignment % SEGMENT_SIZE == 0
}

/// Whether a cursor value must not be used as a hint.
pub fn is_exhausted(cursor: u64) -> (yes: bool)
    ensures
        yes == exhausted(cursor),
{
    cursor == 0 || cursor > HINT_CEILING
}

/// The hint that a cursor value yields: zero unless the value is aligned.
pub fn check_hint(hint: u64, alignment: u64) -> (result: u64)
    ensures
        result == checked(hint, alignment),
{
    if alignment != 0 && hint % alignment == 0 {
        hint
    } else {
        0
    }
}

/// A cursor through the address space.
///
/// A cursor that is `exclusive` has a position that only its holder moves,
/// and its operations do what they say. Of a cursor that is shared between
/// threads nothing is known from one operation to the next.
pub trait Cursor {
    spec fn exclusive(&self) -> bool;

    spec fn position(&self) -> u64;

    /// Moves the cursor on by `amount`, wrapping around at the end of the
    /// range, and returns where it was.
    fn fetch_add(&mut self, amount: u64) -> (previous: u64)
        ensures
            final(self).exclusive() == old(self).exclusive(),
            old(self).exclusive() ==> previous == old(self).position() && final(self).position()
                == old(self).position().wrapping_add(amount),
    ;

    /// Puts the cursor to `base` if it is at `expected`.
    fn reset(&mut self, expected: u64, base: u64)
        ensures
            final(self).exclusive() == old(self).exclusive(),
            old(self).exclusive() ==> final(self).position() == if old(self).position()
                == expected {
                base
            } else {
                old(self).position()
            },
    ;
}

/// The cursor that all threads of a process share.
pub struct SharedCursor<'a> {
    pub word: &'a AtomicU64,
}

/// A cursor that belongs to its holder alone.
pub struct PrivateCursor {
    pub position: u64,
}

impl<'a> Cursor for SharedCursor<'a> {
    open spec fn exclusive(&self) -> bool {
        false
    }

    open spec fn position(&self) -> u64 {
        0
    }

    fn fetch_add(&mut self, amount: u64) -> (previous: u64) {
        self.word.fetch_add(amount, Ordering::AcqRel)
    }

    fn reset(&mut self, expected: u64, base: u64) {
        // If the exchange fails, another thread has moved the cursor already.
        let _ = self.word.compare_exchange(expected, base, Ordering::AcqRel, Ordering::Acquire);
    }
}

impl Cursor for PrivateCursor {
    open spec fn exclusive(&self) -> bool {
        true
    }

    open spec fn position(&self) -> u64 {
        self.position
    }

    fn fetch_add(&mut self, amount: u64) -> (previous: u64) {
        let previous: u64 = self.position;
        self.position = previous.wrapping_add(amount);
        previous
    }

    fn reset(&mut self, expected: u64, base: u64) {
        if self.position == expected {
            self.position = base;
        }
    }
}

/// One request on a cursor that nobody else touches: the hint, and the
/// cursor afterwards.
pub open spec fn hint_step(cursor: u64, alignment: u64, size: u64) -> (u64, u64) {
    if !honoured(alignment) {
        (0, cursor)
    } else if exhausted(cursor) {
        (checked(HINT_BASE, alignment), HINT_BASE.wrapping_add(size))
    } else {
        (checked(cursor, alignment), cursor.wrapping_add(size))
    }
}

/// Takes a hint for a mapping of `size` bytes from the cursor.
///
/// The request moves the cursor on by `size` and takes its previous position
/// as the hint. If that position is exhausted, the cursor is put to the base
/// of the window, unless another thread has moved it in the meantime, and
/// the request is repeated once.
///
/// On an exclusive cursor the hint and the cursor's new position are those
/// of [`hint_step`]. On a shared cursor other threads decide which position
/// the request finds; whatever they do, no hint is given for an alignment
/// that is not honoured, and a hint that is given is aligned to the segment
/// size.
pub fn address_hint<C: Cursor>(cursor: &mut C, alignment: u64, size: u64) -> (hint: u64)
    ensures
        final(cursor).exclusive() == old(cursor).exclusive(),
        !honoured(alignment) ==> hint == 0,
        hint != 0 ==> hint % SEGMENT_SIZE == 0,
        old(cursor).exclusive() ==> (hint, final(cursor).position()) == hint_step(
            old(cursor).position(),
            alignment,
            size,
        ),
{
    if !is_honoured(alignment) {
        return 0;
    }
    let first: u64 = cursor.fetch_add(size);
    let taken: u64 = if is_exhausted(first) {
        cursor.reset(first.wrapping_add(size), HINT_BASE);
        cursor.fetch_add(size)
    } else {
        first
    };
    check_hint(taken, alignment)
}

/// The cursor after a run of segment-aligned requests of the given sizes.
pub open spec fn cursor_after(cursor: u64, sizes: Seq<u64>) -> u64
    decreases sizes.len(),
{
    if sizes.len() == 0 {
        cursor
    } else {
        hint_step(cursor_after(cursor, sizes.drop_last()), SEGMENT_SIZE, sizes.last()).1
    }
}

/// The hint that request `i` of a run of segment-aligned requests receives.
pub open spec fn hint_at(cursor: u64, sizes: Seq<u64>, i: int) -> u64 {
    hint_step(cursor_after(cursor, sizes.take(i)), SEGMENT_SIZE, sizes[i]).0
}

/// Whether every size is a multiple of the segment size.
pub open spec fn segment_sized(sizes: Seq<u64>) -> bool {
    forall|i: int| 0 <= i < sizes.len() ==> #[trigger] sizes[i] % SEGMENT_SIZE == 0
}

/// Adding a multiple of the segment size to a multiple of the segment size
/// gives a multiple of the segment size, even when the sum wraps around.
pub proof fn lemma_wrapping_add_aligned(cursor: u64, size: u64)
    requires
        cursor % SEGMENT_SIZE == 0,
        size % SEGMENT_SIZE == 0,
    ensures
        cursor.wrapping_add(size) % SEGMENT_SIZE == 0,
{
    let sum: int = cursor + size;
    assert(sum % 4194304 == 0) by (nonlinear_arith)
        requires
            sum == cursor + size,
            cursor % 4194304 == 0,
            size % 4194304 == 0,
    ;
    if sum > u64::MAX {
        assert((sum - 0x1_0000_0000_0000_0000) % 4194304 == 0) by (nonlinear_arith)
            requires
                sum % 4194304 == 0,
        ;
    }
}

/// During a run of segment-aligned requests with segment-sized sizes the
/// cursor stays a multiple of the segment size.
pub proof fn lemma_cursor_aligned(cursor: u64, sizes: Seq<u64>)
    requires
        cursor % SEGMENT_SIZE == 0,
        segment_sized(sizes),
    ensures
        cursor_after(cursor, sizes) % SEGMENT_SIZE == 0,
    decreases sizes.len(),
{
    if sizes.len() > 0 {
        let front = sizes.drop_last();
        assert forall|i: int| 0 <= i < front.len() implies #[trigger] front[i] % SEGMENT_SIZE
            == 0 by {
            assert(front[i] == sizes[i]);
        }
        lemma_cursor_aligned(cursor, front);
        let before = cursor_after(cursor, front);
        assert(sizes.last() == sizes[sizes.len() - 1]);
        if exhausted(before) {
            lemma_wrapping_add_aligned(HINT_BASE, sizes.last());
        } else {
            lemma_wrapping_add_aligned(before, sizes.last());
        }
    }
}

/// Every hint of a run of segment-aligned requests with segment-sized sizes is
/// a non-zero multiple of the segment size.
pub proof fn lemma_hints_aligned(cursor: u64, sizes: Seq<u64>, i: int)
    requires
        cursor % SEGMENT_SIZE == 0,
        segment_sized(sizes),
        0 <= i < sizes.len(),
    ensures
        hint_at(cursor, sizes, i) != 0,
        hint_at(cursor, sizes, i) % SEGMENT_SIZE == 0,
{
    let front = sizes.take(i);
    assert forall|k: int| 0 <= k < front.len() implies #[trigger] front[k] % SEGMENT_SIZE
        == 0 by {
        assert(front[k] == sizes[k]);
    }
    lemma_cursor_aligned(cursor, front);
}

/// After the cursor has left the window, the next hint is the window's base.
pub proof fn lemma_hint_after_wraparound(cursor: u64, sizes: Seq<u64>, i: int)
    requires
        0 <= i < sizes.len(),
        exhausted(cursor_after(cursor, sizes.take(i))),
    ensures
        hint_at(cursor, sizes, i) == HINT_BASE,
        hint_at(cursor, sizes, i) >= HINT_BASE,
{
}

/// Whether the cursor stays inside the window from request `from` up to, but
/// not including, request `to`.
pub open spec fn no_wraparound(cursor: u64, sizes: Seq<u64>, from: int, to: int) -> bool {
    forall|k: int| from <= k < to ==> !exhausted(#[trigger] cursor_after(cursor, sizes.take(k)))
}

/// Hints grow from request to request, and so are pairwise distinct, as long
/// as the cursor does not leave the window: of two requests of a run with
/// sizes that are positive and no larger than `MAX_STRIDE`, the later one
/// receives the greater hint.
pub proof fn lemma_hints_increase(cursor: u64, sizes: Seq<u64>, i: int, j: int)
    requires
        cursor % SEGMENT_SIZE == 0,
        segment_sized(sizes),
        forall|k: int| 0 <= k < sizes.len() ==> 0 < #[trigger] sizes[k] <= MAX_STRIDE,
        0 <= i < j < sizes.len(),
        no_wraparound(cursor, sizes, i + 1, j + 1),
    ensures
        hint_at(cursor, sizes, i) < hint_at(cursor, sizes, j),
    decreases j - i,
{
    lemma_hints_aligned(cursor, sizes, j - 1);
    lemma_hints_aligned(cursor, sizes, j);
    let before = cursor_after(cursor, sizes.take(j - 1));
    let here = cursor_after(cursor, sizes.take(j));
    assert(sizes.take(j).drop_last() =~= sizes.take(j - 1));
    assert(sizes.take(j).last() == sizes[j - 1]);
    assert(here == hint_step(before, SEGMENT_SIZE, sizes[j - 1]).1);
    assert(!exhausted(here));
    let previous = hint_at(cursor, sizes, j - 1);
    assert(previous <= HINT_CEILING);
    assert(here == previous + sizes[j - 1]);
    assert(hint_at(cursor, sizes, j) == here);
    if i < j - 1 {
        assert forall|k: int| i + 1 <= k < j implies !exhausted(
            #[trigger] cursor_after(cursor, sizes.take(k)),
        ) by {}
        lemma_hints_increase(cursor, sizes, i, j - 1);
    }
}

} // verus!
