//! The fixed table of helper slots, looked up by logical name.
use vstd::prelude::*;
use crate::slot::ProcessSlot;

verus! {

/// No name occurs twice.
pub open spec fn distinct_names(names: Seq<Seq<char>>) -> bool {
    forall|i: int, j: int| 0 <= i < j < names.len() ==> names[i] != names[j]
}

/// The handles that a table of slots holds, in table order.
pub open spec fn live_handles<H>(slots: Seq<(Seq<char>, Option<H>)>) -> Seq<H>
    decreases slots.len(),
{
    if slots.len() == 0 {
        Seq::empty()
    } else {
        let rest = live_handles(slots.drop_last());
        match slots.last().1 {
            Some(h) => rest.push(h),
            None => rest,
        }
    }
}

/// The character sequences of a list of strings.
pub open spec fn string_views(v: Seq<String>) -> Seq<Seq<char>> {
    v.map_values(|n: String| n@)
}

/// How many slots of a table hold a handle.
pub open spec fn populated_count<H>(slots: Seq<(Seq<char>, Option<H>)>) -> nat {
    live_handles(slots).len()
}

/// The names of a table of slots, in table order.
pub open spec fn names_of<H>(slots: Seq<(Seq<char>, Option<H>)>) -> Seq<Seq<char>> {
    slots.map_values(|s: (Seq<char>, Option<H>)| s.0)
}

/// Every slot of the table is empty.
pub open spec fn all_empty<H>(slots: Seq<(Seq<char>, Option<H>)>) -> bool {
    forall|i: int| 0 <= i < slots.len() ==> (#[trigger] slots[i]).1 is None
}

/// A table that is empty everywhere holds no handle.
pub proof fn lemma_all_empty_no_handles<H>(slots: Seq<(Seq<char>, Option<H>)>)
    requires
        all_empty(slots),
    ensures
        live_handles(slots) == Seq::<H>::empty(),
    decreases slots.len(),
{
    if slots.len() > 0 {
        assert(slots.last().1 is None);
        lemma_all_empty_no_handles(slots.drop_last());
    }
}

/// In a table of distinct names, each name is found at its own position.
pub proof fn lemma_index_of_distinct(names: Seq<Seq<char>>, i: int)
    requires
        distinct_names(names),
        0 <= i < names.len(),
    ensures
        names.contains(names[i]),
        names.index_of(names[i]) == i,
{
    assert(names.contains(names[i]));
    let k = names.index_of(names[i]);
    if k < i {
        assert(names[k] != names[i]);
    } else if k > i {
        assert(names[i] != names[k]);
    }
}

/// The registry of supervised helpers: one slot per configured name, fixed
/// in membership once built. Slots may be empty, for instance when an
/// optional helper failed to start.
pub struct SupervisedProcessRegistry<H> {
    slots: Vec<ProcessSlot<H>>,
}

impl<H> View for SupervisedProcessRegistry<H> {
    type V = Seq<(Seq<char>, Option<H>)>;

    closed spec fn view(&self) -> Seq<(Seq<char>, Option<H>)> {
        self.slots@.map_values(|s: ProcessSlot<H>| (s.name_spec(), s@))
    }
}

impl<H> SupervisedProcessRegistry<H> {
    /// Names are unique, so that lookup by name is well defined.
    pub open spec fn wf(&self) -> bool {
        distinct_names(names_of(self@))
    }

    /// The position of `name` in the table.
    pub open spec fn index_of(&self, name: Seq<char>) -> int
        recommends
            names_of(self@).contains(name),
    {
        names_of(self@).index_of(name)
    }

    /// The handle held under `name`.
    pub open spec fn handle_of(&self, name: Seq<char>) -> Option<H>
        recommends
            names_of(self@).contains(name),
    {
        self@[self.index_of(name)].1
    }

    /// A registry with one empty slot for each name, in the given order.
    /// Returns `None` when a name occurs twice.
    pub fn from_names(names: Vec<String>) -> (r: Option<Self>)
        ensures
            r is Some <==> distinct_names(string_views(names@)),
            r matches Some(reg) ==> {
                &&& reg.wf()
                &&& names_of(reg@) == string_views(names@)
                &&& all_empty(reg@)
            },
    {
        let ghost wanted = string_views(names@);
        let mut slots: Vec<ProcessSlot<H>> = Vec::new();
        let mut i: usize = 0;
        while i < names.len()
            invariant
                i <= names.len(),
                wanted == string_views(names@),
                slots@.len() == i,
                forall|k: int| 0 <= k < i ==> (#[trigger] slots@[k]).name_spec() == wanted[k],
                forall|k: int| 0 <= k < i ==> (#[trigger] slots@[k])@ is None,
                distinct_names(wanted.take(i as int)),
            decreases names.len() - i,
        {
            let mut j: usize = 0;
            while j < i
                invariant
                    i < names.len(),
                    j <= i,
                    wanted == string_views(names@),
                    forall|k: int| 0 <= k < j ==> wanted[k] != wanted[i as int],
                decreases i - j,
            {
                if names[j].eq(&names[i]) {
                    assert(wanted[j as int] == wanted[i as int]);
                    assert(!distinct_names(wanted));
                    return None;
                }
                j = j + 1;
            }
            assert(distinct_names(wanted.take(i + 1))) by {
                let t = wanted.take(i + 1);
                assert forall|a: int, b: int| 0 <= a < b < i + 1 implies #[trigger] t[a]
                    != #[trigger] t[b] by {
                    if b < i {
                        assert(wanted.take(i as int)[a] != wanted.take(i as int)[b]);
                    }
                }
            }
            slots.push(ProcessSlot::new(names[i].clone()));
            i = i + 1;
        }
        assert(wanted.take(names.len() as int) == wanted);
        let reg = SupervisedProcessRegistry { slots };
        assert(names_of(reg@) =~= wanted);
        Some(reg)
    }

    /// Number of slots.
    pub fn len(&self) -> (r: usize)
        ensures
            r == self@.len(),
    {
        self.slots.len()
    }

    /// The position of `name` in the table, if it is configured.
    pub fn find(&self, name: &String) -> (r: Option<usize>)
        requires
            self.wf(),
        ensures
            r is None <==> !names_of(self@).contains(name@),
            r matches Some(i) ==> i == self.index_of(name@) && i < self@.len() && self@[i as int].0
                == name@,
    {
        let mut i: usize = 0;
        while i < self.slots.len()
            invariant
                i <= self.slots@.len(),
                self.wf(),
                forall|k: int| 0 <= k < i ==> names_of(self@)[k] != name@,
            decreases self.slots@.len() - i,
        {
            if self.slots[i].name().eq(name) {
                proof {
                    lemma_index_of_distinct(names_of(self@), i as int);
                }
                return Some(i);
            }
            i = i + 1;
        }
        assert(!names_of(self@).contains(name@)) by {
            if names_of(self@).contains(name@) {
                let k = choose|k: int| 0 <= k < names_of(self@).len() && names_of(self@)[k] == name@;
                assert(names_of(self@)[k] != name@);
            }
        }
        None
    }

    /// The slot of a configured helper. Asking for a name that is not
    /// configured is a programming error, ruled out here.
    pub fn get(&self, name: &String) -> (r: &ProcessSlot<H>)
        requires
            self.wf(),
            names_of(self@).contains(name@),
        ensures
            r.name_spec() == name@,
            r@ == self.handle_of(name@),
    {
        let i = self.find(name).unwrap();
        &self.slots[i]
    }

    /// Stores a newly spawned handle under `name`, whose slot must be empty.
    pub fn set(&mut self, name: &String, handle: H)
        requires
            old(self).wf(),
            names_of(old(self)@).contains(name@),
            old(self).handle_of(name@) is None,
        ensures
            final(self).wf(),
            final(self)@ == old(self)@.update(old(self).index_of(name@), (name@, Some(handle))),
    {
        let i = self.find(name).unwrap();
        self.slots[i].set(handle);
        assert(self@ =~= old(self)@.update(i as int, (name@, Some(handle))));
        assert(names_of(self@) =~= names_of(old(self)@));
    }

    /// Kills the slot of `name`: it is left empty, and the handle it held, if
    /// any, is returned to be terminated.
    pub fn kill(&mut self, name: &String) -> (r: Option<H>)
        requires
            old(self).wf(),
            names_of(old(self)@).contains(name@),
        ensures
            final(self).wf(),
            r == old(self).handle_of(name@),
            final(self)@ == old(self)@.update(old(self).index_of(name@), (name@, None::<H>)),
    {
        let i = self.find(name).unwrap();
        let r = self.slots[i].kill();
        assert(self@ =~= old(self)@.update(i as int, (name@, None::<H>)));
        assert(names_of(self@) =~= names_of(old(self)@));
        r
    }

    /// Kills every slot, populated or not, in table order. Returns the handles
    /// that were held, in that order, each to be terminated once.
    pub fn kill_all(&mut self) -> (r: Vec<H>)
        requires
            old(self).wf(),
        ensures
            final(self).wf(),
            names_of(final(self)@) == names_of(old(self)@),
            all_empty(final(self)@),
            r@ == live_handles(old(self)@),
    {
        let ghost before = self@;
        let mut out: Vec<H> = Vec::new();
        let mut i: usize = 0;
        while i < self.slots.len()
            invariant
                i <= self.slots@.len(),
                self@.len() == before.len(),
                forall|k: int| 0 <= k < i ==> (#[trigger] self@[k]) == (before[k].0, None::<H>),
                forall|k: int| i <= k < self@.len() ==> (#[trigger] self@[k]) == before[k],
                out@ == live_handles(before.take(i as int)),
            decreases self.slots@.len() - i,
        {
            let ghost prev = self@;
            let ghost prev_slots = self.slots@;
            let h = self.slots[i].kill();
            assert(self.slots@ == prev_slots.update(i as int, self.slots@[i as int]));
            assert(self.slots@[i as int].name_spec() == prev_slots[i as int].name_spec());
            assert(self.slots@[i as int]@ is None);
            assert(prev[i as int] == before[i as int]);
            assert(self@[i as int] == (before[i as int].0, None::<H>));
            assert(self@ =~= prev.update(i as int, (before[i as int].0, None::<H>)));
            assert(before.take(i + 1).drop_last() =~= before.take(i as int));
            if let Some(h) = h {
                out.push(h);
            }
            i = i + 1;
        }
        assert(before.take(before.len() as int) =~= before);
        assert(names_of(self@) =~= names_of(before));
        out
    }

    /// How many slots hold a handle.
    pub fn populated_count(&self) -> (r: usize)
        ensures
            r == populated_count(self@),
    {
        let mut n: usize = 0;
        let mut i: usize = 0;
        while i < self.slots.len()
            invariant
                i <= self.slots@.len(),
                n == live_handles(self@.take(i as int)).len(),
                n <= i,
            decreases self.slots@.len() - i,
        {
            assert(self@.take(i + 1).drop_last() =~= self@.take(i as int));
            if self.slots[i].is_populated() {
                n = n + 1;
            }
            i = i + 1;
        }
        assert(self@.take(self@.len() as int) =~= self@);
        n
    }
}

} // verus!
