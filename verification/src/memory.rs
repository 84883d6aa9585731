//! Physical frames and the allocator that hands them out.
use vstd::prelude::*;

pub mod paging;

verus! {

/// Size of a page and of a physical frame, in bytes.
pub const PAGE_SIZE: u64 = 4096;

/// Number of frames whose byte address fits in 64 bits.
pub const FRAME_LIMIT: u64 = 0x10_0000_0000_0000;

/// Index of a physical frame; its byte address is the index times `PAGE_SIZE`.
pub type Frame = u64;

/// Number of a virtual page.
pub type Page = u64;

pub type PhysicalAddress = u64;

pub type VirtualAddress = u64;

/// Byte address of the first byte of `frame`.
pub fn frame_to_address(frame: Frame) -> (address: PhysicalAddress)
    requires
        frame < FRAME_LIMIT,
    ensures
        address == frame_start(frame as nat),
{
    frame * PAGE_SIZE
}

/// The frame that holds the byte at `addr`.
pub fn adress_to_frame(addr: PhysicalAddress) -> (frame: Frame)
    ensures
        frame == addr / PAGE_SIZE,
        frame < FRAME_LIMIT,
{
    addr / PAGE_SIZE
}

/// Byte address of the first byte of `frame`, without a bound.
pub open spec fn frame_start(frame: nat) -> nat {
    frame * 4096
}

/// Whether the half-open byte range `range` holds every byte of `frame`.
pub open spec fn range_holds_frame(range: (u64, u64), frame: nat) -> bool {
    range.0 <= frame_start(frame) && frame_start(frame + 1) <= range.1
}

/// Whether some range of `ranges` holds every byte of `frame`.
pub open spec fn covered(ranges: Seq<(u64, u64)>, frame: nat) -> bool {
    exists|i: int| 0 <= i < ranges.len() && range_holds_frame(#[trigger] ranges[i], frame)
}

/// The largest upper bound among `ranges`, and 0 where there is none.
pub open spec fn max_bound(ranges: Seq<(u64, u64)>) -> u64
    decreases ranges.len(),
{
    if ranges.len() == 0 {
        0
    } else {
        let rest = max_bound(ranges.drop_last());
        if ranges.last().1 > rest {
            ranges.last().1
        } else {
            rest
        }
    }
}

/// A frame is free when a usable range holds it and no occupied range does.
pub open spec fn is_free(usable: Seq<(u64, u64)>, occupied: Seq<(u64, u64)>, frame: nat) -> bool {
    covered(usable, frame) && !covered(occupied, frame)
}

/// The free frames from `from` on, in increasing order. The search ends at the
/// first frame that starts at or above every usable bound.
pub open spec fn free_frames(
    usable: Seq<(u64, u64)>,
    occupied: Seq<(u64, u64)>,
    from: nat,
) -> Seq<Frame>
    decreases max_bound(usable) - from,
{
    if frame_start(from) >= max_bound(usable) {
        Seq::empty()
    } else if is_free(usable, occupied, from) {
        seq![from as Frame] + free_frames(usable, occupied, from + 1)
    } else {
        free_frames(usable, occupied, from + 1)
    }
}

/// What an allocator with the frames `upcoming` answers when it is asked: the
/// first of them, or `None` where there is none.
pub open spec fn answer(upcoming: Seq<Frame>) -> Option<Frame> {
    if upcoming.len() > 0 {
        Some(upcoming[0])
    } else {
        None
    }
}

/// What is left of the frames `upcoming` after the allocator was asked once.
pub open spec fn after_answer(upcoming: Seq<Frame>) -> Seq<Frame> {
    if upcoming.len() > 0 {
        upcoming.skip(1)
    } else {
        upcoming
    }
}

/// A source of physical frames. What it hands out is set by its state alone:
/// `upcoming` names the frames that it has still to hand out, and each call of
/// `allocate` takes the first of them.
pub trait FrameAllocator {
    /// The frames that the allocator has still to hand out, in order.
    spec fn upcoming(&self) -> Seq<Frame>;

    /// Hands out the next frame, or `None` when none is left.
    fn allocate(&mut self) -> (frame: Option<Frame>)
        ensures
            frame == answer(old(self).upcoming()),
            final(self).upcoming() == after_answer(old(self).upcoming()),
    ;
}

/// An allocator that scans the frames upwards from 0 and never takes one back.
pub struct SimpleFrameAllocator {
    index: Frame,
    usable: Vec<(u64, u64)>,
    occupied: Vec<(u64, u64)>,
    usable_max: u64,
}

/// Whether some range of `ranges` holds every byte of `frame`.
fn holds_frame(ranges: &Vec<(u64, u64)>, frame: Frame) -> (held: bool)
    requires
        frame < FRAME_LIMIT,
    ensures
        held == covered(ranges@, frame as nat),
{
    let addr_lo: u64 = frame_to_address(frame);
    let mut i: usize = 0;
    while i < ranges.len()
        invariant
            i <= ranges.len(),
            frame < FRAME_LIMIT,
            addr_lo == frame_start(frame as nat),
            forall|k: int| 0 <= k < i ==> !range_holds_frame(#[trigger] ranges@[k], frame as nat),
        decreases ranges.len() - i,
    {
        let (lo, hi) = ranges[i];
        if lo <= addr_lo && addr_lo <= hi && hi - addr_lo >= PAGE_SIZE {
            assert(range_holds_frame(ranges@[i as int], frame as nat));
            return true;
        }
        i += 1;
    }
    false
}

/// The largest upper bound among `ranges`.
fn largest_bound(ranges: &Vec<(u64, u64)>) -> (bound: u64)
    ensures
        bound == max_bound(ranges@),
{
    let mut bound: u64 = 0;
    let mut i: usize = 0;
    while i < ranges.len()
        invariant
            i <= ranges.len(),
            bound == max_bound(ranges@.take(i as int)),
        decreases ranges.len() - i,
    {
        assert(ranges@.take(i + 1).drop_last() == ranges@.take(i as int));
        let (_, hi) = ranges[i];
        if hi > bound {
            bound = hi;
        }
        i += 1;
    }
    assert(ranges@.take(i as int) == ranges@);
    bound
}

impl SimpleFrameAllocator {
    #[verifier::type_invariant]
    spec fn consistent(self) -> bool {
        self.usable_max == max_bound(self.usable@)
    }

    /// The next frame that the scan will look at.
    pub closed spec fn cursor(&self) -> nat {
        self.index as nat
    }

    /// The ranges that frames may be taken from.
    pub closed spec fn usable(&self) -> Seq<(u64, u64)> {
        self.usable@
    }

    /// The ranges that no frame may be taken from.
    pub closed spec fn occupied(&self) -> Seq<(u64, u64)> {
        self.occupied@
    }

    /// An allocator over the frames that lie inside a range of `usable` and
    /// inside no range of `occupied`. Every range is half-open, `(low, high)`.
    pub fn new(usable: Vec<(u64, u64)>, occupied: Vec<(u64, u64)>) -> (allocator: Self)
        ensures
            allocator.cursor() == 0,
            allocator.usable() == usable@,
            allocator.occupied() == occupied@,
    {
        let usable_max = largest_bound(&usable);
        Self { index: 0, usable, occupied, usable_max }
    }
}

impl FrameAllocator for SimpleFrameAllocator {
    /// The free frames from the cursor on, in rising order.
    open spec fn upcoming(&self) -> Seq<Frame> {
        free_frames(self.usable(), self.occupied(), self.cursor())
    }

    /// Hands out the lowest free frame at or above the cursor and moves the
    /// cursor past it. Every frame that comes later is higher than the one
    /// handed out. Where no free frame is left the cursor stops at the first
    /// frame that starts at or above every usable bound, and stays there.
    fn allocate(&mut self) -> (frame: Option<Frame>)
        ensures
            final(self).usable() == old(self).usable(),
            final(self).occupied() == old(self).occupied(),
            match frame {
                Some(f) => old(self).cursor() <= f && final(self).cursor() == f + 1 && is_free(
                    old(self).usable(),
                    old(self).occupied(),
                    f as nat,
                ),
                None => final(self).cursor() >= old(self).cursor(),
            },
            frame matches Some(f) ==> forall|i: int|
                0 <= i < final(self).upcoming().len() ==> f < #[trigger] final(self).upcoming()[i],
            frame is None ==> frame_start(final(self).cursor()) >= max_bound(old(self).usable()),
            frame is None && final(self).cursor() > old(self).cursor() ==> frame_start(
                (final(self).cursor() - 1) as nat,
            ) < max_bound(old(self).usable()),
            frame_start(old(self).cursor()) >= max_bound(old(self).usable())
                ==> final(self).cursor() == old(self).cursor(),
    {
        proof {
            use_type_invariant(&*self);
        }
        loop
            invariant
                self.usable_max == max_bound(self.usable@),
                self.usable == old(self).usable,
                self.occupied == old(self).occupied,
                self.index >= old(self).index,
                self.index > old(self).index ==> frame_start((self.index - 1) as nat) < max_bound(
                    self.usable@,
                ),
                free_frames(self.usable@, self.occupied@, self.index as nat) == free_frames(
                    old(self).usable@,
                    old(self).occupied@,
                    old(self).index as nat,
                ),
            decreases self.usable_max - self.index,
        {
            let index = self.index;
            if index >= FRAME_LIMIT {
                return None;
            }
            let addr_lo: u64 = frame_to_address(index);
            if addr_lo >= self.usable_max {
                return None;
            }
            self.index = index + 1;
            let usable = holds_frame(&self.usable, index);
            let occupied = holds_frame(&self.occupied, index);
            if usable && !occupied {
                assert(free_frames(self.usable@, self.occupied@, index as nat) == seq![index]
                    + free_frames(self.usable@, self.occupied@, index as nat + 1));
                assert((seq![index] + free_frames(self.usable@, self.occupied@, index as nat + 1)).skip(
                    1,
                ) == free_frames(self.usable@, self.occupied@, index as nat + 1));
                proof {
                    lemma_free_frames_rise(self.usable@, self.occupied@, index as nat + 1);
                }
                return Some(index);
            }
        }
    }
}

/// The frames from `from` on that are free come out in rising order, each
/// once, and no free frame below the largest usable bound is left out.
pub proof fn lemma_free_frames_rise(
    usable: Seq<(u64, u64)>,
    occupied: Seq<(u64, u64)>,
    from: nat,
)
    ensures
        forall|i: int, j: int|
            0 <= i < j < free_frames(usable, occupied, from).len() ==> free_frames(
                usable,
                occupied,
                from,
            )[i] < free_frames(usable, occupied, from)[j],
        forall|i: int|
            0 <= i < free_frames(usable, occupied, from).len() ==> {
                let f = #[trigger] free_frames(usable, occupied, from)[i];
                from <= f && frame_start(f as nat) < max_bound(usable) && is_free(
                    usable,
                    occupied,
                    f as nat,
                )
            },
        forall|f: Frame|
            from <= f && frame_start(f as nat) < max_bound(usable) && is_free(
                usable,
                occupied,
                f as nat,
            ) ==> free_frames(usable, occupied, from).contains(f),
    decreases max_bound(usable) - from,
{
    let all = free_frames(usable, occupied, from);
    if frame_start(from) < max_bound(usable) {
        let rest = free_frames(usable, occupied, from + 1);
        lemma_free_frames_rise(usable, occupied, from + 1);
        if is_free(usable, occupied, from) {
            assert(all == seq![from as Frame] + rest);
            assert(all[0] == from);
            assert forall|i: int| 1 <= i < all.len() implies all[i] == rest[i - 1] by {}
            assert forall|f: Frame|
                from <= f && frame_start(f as nat) < max_bound(usable) && is_free(
                    usable,
                    occupied,
                    f as nat,
                ) implies all.contains(f) by {
                if f == from {
                    assert(all[0] == f);
                } else {
                    assert(rest.contains(f));
                    let k = choose|k: int| 0 <= k < rest.len() && rest[k] == f;
                    assert(all[k + 1] == f);
                }
            }
        } else {
            assert(all == rest);
        }
    }
}

/// Whatever a `SimpleFrameAllocator` still hands out rises strictly: no frame
/// comes twice, and none that the scan has passed comes back.
pub proof fn lemma_allocation_order(allocator: SimpleFrameAllocator)
    ensures
        forall|i: int, j: int|
            0 <= i < j < allocator.upcoming().len() ==> allocator.upcoming()[i]
                < allocator.upcoming()[j],
        forall|i: int|
            0 <= i < allocator.upcoming().len() ==> allocator.cursor()
                <= #[trigger] allocator.upcoming()[i],
{
    lemma_free_frames_rise(allocator.usable(), allocator.occupied(), allocator.cursor());
}

} // verus!
