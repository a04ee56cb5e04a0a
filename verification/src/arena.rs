//! The memory that is reserved on a device, and how far it is used.
//!
//! Regions are taken one behind the other.  They are given back all at once, down to a mark
//! that was noted before.

use vstd::prelude::*;

verus! {

/// A region does not fit what is left.
#[derive(Copy, Clone, Debug, PartialEq, Eq, Structural)]
pub struct ArenaFull {
    pub bytes: usize,
}

#[derive(Copy, Clone, Debug, PartialEq, Eq, Structural)]
pub struct Arena {
    pub base: u64,
    pub capacity: usize,
    pub used: usize,
}

/// The first multiple of `align` that is no less than `x`.
pub open spec fn aligned(x: int, align: int) -> int {
    if x % align == 0 {
        x
    } else {
        x - x % align + align
    }
}

/// What is handed on when the memory has been given back: a device that did not come to rest
/// is a failure, whatever the work ended with.
pub open spec fn outcome<T, F>(fenced: Result<(), F>, result: Result<T, F>) -> Result<T, F> {
    match fenced {
        Err(fault) => Err(fault),
        Ok(()) => result,
    }
}

impl Arena {
    pub open spec fn wf(self) -> bool {
        &&& self.used <= self.capacity
        &&& self.base + self.capacity <= u64::MAX
    }

    /// Where the next region begins.
    pub open spec fn next(self, align: u64) -> int {
        aligned(self.base + self.used, align as int)
    }

    /// The arena once a region has been taken; nothing where it does not fit.
    pub open spec fn taken(self, bytes: usize, align: u64) -> Option<Arena> {
        let used = self.next(align) - self.base + bytes;
        if used <= self.capacity {
            Some(Arena { used: used as usize, ..self })
        } else {
            None
        }
    }

    /// The arena once regions have been asked for, each by its size and alignment.
    pub open spec fn after(self, asked: Seq<(usize, u64)>) -> Arena
        decreases asked.len(),
    {
        if asked.len() == 0 {
            self
        } else {
            let before = self.after(asked.drop_last());
            match before.taken(asked.last().0, asked.last().1) {
                Some(arena) => arena,
                None => before,
            }
        }
    }

    /// The arena back at a mark.
    pub open spec fn back_at(self, mark: usize) -> Arena {
        Arena { used: mark, ..self }
    }

    /// An unused arena; nothing where its end has no address.
    pub fn new(base: u64, capacity: usize) -> (r: Option<Arena>)
        ensures
            r == (if base + capacity <= u64::MAX {
                Some(Arena { base, capacity, used: 0 })
            } else {
                None
            }),
    {
        if base as u128 + capacity as u128 <= u64::MAX as u128 {
            Some(Arena { base, capacity, used: 0 })
        } else {
            None
        }
    }

    /// Takes a region, and returns its address.
    pub fn region(&mut self, bytes: usize, align: u64) -> (r: Result<u64, ArenaFull>)
        requires
            old(self).wf(),
            align >= 1,
        ensures
            final(self).wf(),
            match old(self).taken(bytes, align) {
                Some(arena) => {
                    &&& *final(self) == arena
                    &&& r is Ok
                    &&& r->Ok_0 == old(self).next(align)
                },
                None => *final(self) == *old(self) && r == Err::<u64, ArenaFull>(
                    ArenaFull { bytes },
                ),
            },
    {
        let free: u64 = self.base + self.used as u64;
        let over: u64 = free % align;
        proof {
            vstd::arithmetic::div_mod::lemma_mod_decreases(free as nat, align as nat);
            lemma_aligned(free as int, align as int);
        }
        let at: u128 = if over == 0 {
            free as u128
        } else {
            (free - over) as u128 + align as u128
        };
        let used: u128 = at - self.base as u128 + bytes as u128;
        if used > self.capacity as u128 {
            return Err(ArenaFull { bytes });
        }
        self.used = used as usize;
        Ok(at as u64)
    }

    /// How far the arena is used.
    pub fn checkpoint(&self) -> (mark: usize)
        ensures
            mark == self.used,
    {
        self.used
    }

    /// Ends a request that noted `mark` when it began: what it took is given back, and its
    /// outcome handed on, once the device has been waited for.
    pub fn end_request<T, F>(&mut self, mark: usize, fenced: Result<(), F>, result: Result<T, F>) -> (r:
        Result<T, F>)
        requires
            old(self).wf(),
            mark <= old(self).used,
        ensures
            final(self).wf(),
            *final(self) == old(self).back_at(mark),
            r == outcome(fenced, result),
    {
        self.used = mark;
        match fenced {
            Err(fault) => Err(fault),
            Ok(()) => result,
        }
    }
}

proof fn lemma_aligned(x: int, align: int)
    requires
        0 <= x,
        align >= 1,
    ensures
        x <= aligned(x, align) < x + align,
        aligned(x, align) % align == 0,
{
    vstd::arithmetic::div_mod::lemma_fundamental_div_mod(x, align);
    let q = x / align;
    assert(x - x % align + align == (q + 1) * align) by (nonlinear_arith)
        requires
            x == align * q + x % align,
    ;
    vstd::arithmetic::div_mod::lemma_mod_multiples_basic(q + 1, align);
}

proof fn lemma_after(arena: Arena, asked: Seq<(usize, u64)>)
    requires
        arena.wf(),
        forall|i: int| 0 <= i < asked.len() ==> (#[trigger] asked[i]).1 >= 1,
    ensures
        arena.after(asked).wf(),
        arena.after(asked).base == arena.base,
        arena.after(asked).capacity == arena.capacity,
        arena.after(asked).used >= arena.used,
    decreases asked.len(),
{
    if asked.len() > 0 {
        let rest = asked.drop_last();
        assert forall|i: int| 0 <= i < rest.len() implies (#[trigger] rest[i]).1 >= 1 by {
            assert(rest[i] == asked[i]);
        }
        assert(asked[asked.len() - 1].1 >= 1);
        lemma_after(arena, rest);
        let before = arena.after(rest);
        lemma_aligned(before.base + before.used, asked.last().1 as int);
    }
}

/// A region is aligned, lies in the arena, and does not reach into what was used before; what
/// is taken later lies behind it.
pub proof fn law_regions_are_disjoint(
    arena: Arena,
    bytes: usize,
    align: u64,
    between: Seq<(usize, u64)>,
    later_align: u64,
)
    requires
        arena.wf(),
        align >= 1,
        later_align >= 1,
        forall|i: int| 0 <= i < between.len() ==> (#[trigger] between[i]).1 >= 1,
        arena.taken(bytes, align) is Some,
    ensures
        arena.next(align) % align as int == 0,
        arena.base + arena.used <= arena.next(align),
        arena.next(align) + bytes <= arena.base + arena.capacity,
        arena.next(align) + bytes <= arena.taken(bytes, align)->0.after(between).next(later_align),
{
    lemma_aligned(arena.base + arena.used, align as int);
    let a = arena.taken(bytes, align)->0;
    lemma_after(a, between);
    let b = a.after(between);
    lemma_aligned(b.base + b.used, later_align as int);
}

/// A request leaves the arena as it found it, whatever it asked for in between, whatever of
/// that it was given, and however it and the wait for the device ended.
pub proof fn law_request_leaves_the_arena_as_it_was(before: Arena, asked: Seq<(usize, u64)>)
    requires
        before.wf(),
        forall|i: int| 0 <= i < asked.len() ==> (#[trigger] asked[i]).1 >= 1,
    ensures
        before.after(asked).wf(),
        before.used <= before.after(asked).used,
        before.after(asked).back_at(before.used) == before,
{
    lemma_after(before, asked);
}

} // verus!
