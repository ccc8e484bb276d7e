//! The packet-id allocator.
//!
//! Packet ids are 16-bit numbers; 0 is never a valid id. The ids are split by
//! parity between the two ends of a connection: an allocator made for a
//! client hands out odd ids, one made for a broker even ids.
use vstd::prelude::*;

verus! {

/// The number of 16-bit ids.
pub const ID_SPACE: usize = 65_536;

/// Which end of a connection an allocator serves.
#[derive(Clone, Copy, PartialEq, Eq, Structural, Debug)]
pub enum IdGenType {
    /// Odd ids.
    Client,
    /// Even ids.
    Broker,
}

/// The id that follows `id` among the ids of its parity: two more, or back
/// to the start when that would pass the end.
pub open spec fn spec_checked_incr(id: u16) -> u16 {
    if id + 2 < ID_SPACE {
        (id + 2) as u16
    } else {
        (id % 2) as u16
    }
}

/// How far `id` lies after `cursor` when counting upward with wraparound;
/// the cursor itself lies a full revolution away.
pub open spec fn distance(cursor: u16, id: u16) -> int {
    if id > cursor {
        id - cursor
    } else {
        id - cursor + ID_SPACE
    }
}

/// Whether `id` is one that an allocator with this cursor may hand out: not
/// 0, of the cursor's parity, and not in use.
pub open spec fn is_candidate(used: Set<u16>, cursor: u16, id: u16) -> bool {
    id != 0 && id % 2 == cursor % 2 && !used.contains(id)
}

/// Whether `id` is the candidate that a scan upward from the cursor meets
/// first.
pub open spec fn is_next_candidate(used: Set<u16>, cursor: u16, id: u16) -> bool {
    &&& is_candidate(used, cursor, id)
    &&& forall|other: u16|
        is_candidate(used, cursor, other) ==> distance(cursor, id) <= distance(cursor, other)
}

/// The id that an allocator with this cursor hands out next, if it can hand
/// out any.
pub open spec fn spec_next_id(used: Set<u16>, cursor: u16) -> Option<u16> {
    if exists|id: u16| is_candidate(used, cursor, id) {
        Some(choose|id: u16| is_next_candidate(used, cursor, id))
    } else {
        None
    }
}

/// The candidate met first is the only one of its kind: it is the id handed
/// out next.
pub proof fn lemma_next_candidate(used: Set<u16>, cursor: u16, id: u16)
    requires
        is_next_candidate(used, cursor, id),
    ensures
        spec_next_id(used, cursor) == Some(id),
{
    assert(is_candidate(used, cursor, id));
    let chosen = choose|c: u16| is_next_candidate(used, cursor, c);
    assert(is_next_candidate(used, cursor, chosen));
    assert(distance(cursor, chosen) <= distance(cursor, id));
    assert(distance(cursor, id) <= distance(cursor, chosen));
}

/// Tracks which packet ids are in use and hands out free ones.
#[derive(Debug)]
pub struct IdGenerator {
    last: u16,
    id_table: Vec<bool>,
}

impl IdGenerator {
    #[verifier::type_invariant]
    pub closed spec fn inv(&self) -> bool {
        self.id_table@.len() == ID_SPACE
    }

    /// The ids in use.
    pub closed spec fn used(&self) -> Set<u16> {
        Set::new(|id: u16| self.id_table@[id as int])
    }

    /// The id handed out last; the search for the next one starts after it.
    pub closed spec fn cursor(&self) -> u16 {
        self.last
    }

    /// An allocator with no id in use. Its cursor stands on the last id of
    /// its parity, so that the first id handed out is 1 for a client and 2
    /// for a broker.
    pub fn new(_type: IdGenType) -> (g: Self)
        ensures
            g.used() == Set::<u16>::empty(),
            g.cursor() == (if _type == IdGenType::Client {
                65_535u16
            } else {
                65_534u16
            }),
    {
        let last: u16 = if _type == IdGenType::Client {
            u16::MAX
        } else {
            u16::MAX - 1
        };
        let g = Self { last, id_table: vec![false; ID_SPACE] };
        assert(g.used() =~= Set::<u16>::empty());
        g
    }

    /// Marks every id as free.
    pub fn flush(&mut self)
        ensures
            final(self).used() == Set::<u16>::empty(),
            final(self).cursor() == old(self).cursor(),
    {
        self.id_table = vec![false; ID_SPACE];
        assert(self.used() =~= Set::<u16>::empty());
    }

    /// Whether `idx` is in use.
    pub fn is_set(&self, idx: u16) -> (b: bool)
        ensures
            b == self.used().contains(idx),
    {
        proof {
            use_type_invariant(self);
        }
        self.id_table[idx as usize]
    }

    /// Marks `idx` as free.
    pub fn unset(&mut self, idx: u16)
        ensures
            final(self).used() == old(self).used().remove(idx),
            final(self).cursor() == old(self).cursor(),
    {
        proof {
            use_type_invariant(&*self);
        }
        self.id_table[idx as usize] = false;
        assert(self.used() =~= old(self).used().remove(idx));
    }

    /// Marks `idx` as in use.
    pub fn set_id(&mut self, idx: u16)
        ensures
            final(self).used() == old(self).used().insert(idx),
            final(self).cursor() == old(self).cursor(),
    {
        proof {
            use_type_invariant(&*self);
        }
        self.id_table[idx as usize] = true;
        assert(self.used() =~= old(self).used().insert(idx));
    }

    /// Releases `id`.
    pub fn free_id(&mut self, id: u16)
        ensures
            final(self).used() == old(self).used().remove(id),
            final(self).cursor() == old(self).cursor(),
    {
        self.unset(id);
    }

    /// Finds the next free id of the allocator's parity, scanning upward
    /// from the cursor with wraparound and passing over 0, and moves the
    /// cursor onto it. It fails, and leaves the cursor, exactly when every
    /// id of the parity is in use. The id is not marked as in use.
    pub fn next_id(&mut self) -> (r: Option<u16>)
        ensures
            final(self).used() == old(self).used(),
            r == spec_next_id(old(self).used(), old(self).cursor()),
            match r {
                Some(id) => {
                    &&& is_candidate(old(self).used(), old(self).cursor(), id)
                    &&& final(self).cursor() == id
                    &&& forall|other: u16|
                        is_candidate(old(self).used(), old(self).cursor(), other) ==> distance(
                            old(self).cursor(),
                            id,
                        ) <= distance(old(self).cursor(), other)
                },
                None => {
                    &&& final(self).cursor() == old(self).cursor()
                    &&& forall|other: u16|
                        !is_candidate(old(self).used(), old(self).cursor(), other)
                },
            },
    {
        proof {
            use_type_invariant(&*self);
        }
        let ghost used = self.used();
        let ghost cursor = self.last;
        let mut curr_idx: u16 = checked_incr(self.last);
        let mut steps: u32 = 1;
        while steps <= 32_768
            invariant
                1 <= steps <= 32_769,
                self.id_table@.len() == ID_SPACE,
                self.used() == used,
                self.last == cursor,
                used == old(self).used(),
                cursor == old(self).cursor(),
                steps <= 32_768 ==> distance(cursor, curr_idx) == 2 * steps && curr_idx % 2
                    == cursor % 2,
                forall|other: u16|
                    is_candidate(used, cursor, other) ==> 2 * steps <= distance(cursor, other),
            decreases 32_769 - steps,
        {
            if curr_idx != 0 && !self.id_table[curr_idx as usize] {
                self.last = curr_idx;
                assert(self.used() =~= used);
                proof {
                    lemma_next_candidate(used, cursor, curr_idx);
                }
                return Some(curr_idx);
            }
            let ghost seen = curr_idx;
            assert forall|other: u16| is_candidate(used, cursor, other) implies 2 * (steps + 1)
                <= distance(cursor, other) by {
                if distance(cursor, other) == 2 * steps {
                    assert(other == seen);
                }
            }
            curr_idx = checked_incr(curr_idx);
            steps = steps + 1;
        }
        None
    }

    /// Hands out the next free id and marks it as in use.
    pub fn next_persistant_id(&mut self) -> (r: Option<u16>)
        ensures
            r == spec_next_id(old(self).used(), old(self).cursor()),
            match r {
                Some(id) => {
                    &&& is_candidate(old(self).used(), old(self).cursor(), id)
                    &&& final(self).cursor() == id
                    &&& final(self).used() == old(self).used().insert(id)
                    &&& forall|other: u16|
                        is_candidate(old(self).used(), old(self).cursor(), other) ==> distance(
                            old(self).cursor(),
                            id,
                        ) <= distance(old(self).cursor(), other)
                },
                None => {
                    &&& final(self).cursor() == old(self).cursor()
                    &&& final(self).used() == old(self).used()
                    &&& forall|other: u16|
                        !is_candidate(old(self).used(), old(self).cursor(), other)
                },
            },
    {
        match self.next_id() {
            Some(idx) => {
                self.set_id(idx);
                Some(idx)
            },
            None => None,
        }
    }
}

impl Clone for IdGenerator {
    fn clone(&self) -> (r: Self)
        ensures
            r.used() == self.used(),
            r.cursor() == self.cursor(),
    {
        proof {
            use_type_invariant(self);
        }
        let r = Self { last: self.last, id_table: self.id_table.clone() };
        assert(r.id_table@ =~= self.id_table@);
        r
    }
}

/// The id that follows `id` among the ids of its parity.
pub fn checked_incr(id: u16) -> (r: u16)
    ensures
        r == spec_checked_incr(id),
{
    match id.checked_add(2) {
        Some(idx) => idx,
        None => id % 2,
    }
}

/// When every id of one parity but 0 is in use, no id of that parity can be
/// handed out; once any one of them is released, one can, and it is the
/// released one.
pub proof fn lemma_full_then_released(used: Set<u16>, cursor: u16, released: u16)
    requires
        forall|id: u16| id != 0 && id % 2 == cursor % 2 ==> used.contains(id),
        released != 0,
        released % 2 == cursor % 2,
    ensures
        forall|id: u16| !is_candidate(used, cursor, id),
        spec_next_id(used, cursor) is None,
        is_candidate(used.remove(released), cursor, released),
        forall|id: u16| is_candidate(used.remove(released), cursor, id) ==> id == released,
        spec_next_id(used.remove(released), cursor) == Some(released),
{
    assert(is_next_candidate(used.remove(released), cursor, released));
    lemma_next_candidate(used.remove(released), cursor, released);
}

/// Every id lies between one step and a full revolution after the cursor,
/// and an even number of steps after it exactly when it has the cursor's
/// parity: a scan by steps of two meets every id of the parity once.
pub proof fn lemma_distance_parity(cursor: u16, id: u16)
    ensures
        1 <= distance(cursor, id) <= ID_SPACE,
        id % 2 == cursor % 2 <==> distance(cursor, id) % 2 == 0,
        distance(cursor, id) == ID_SPACE <==> id == cursor,
{
}

} // verus!
