//! Putting the fragments of a video frame back together.
//!
//! The reassembler holds one slot per fragment index of the frame that is
//! coming in. A slot is missing until its fragment arrives. The frame is
//! complete when there is at least one slot and none is missing.

use vstd::prelude::*;

verus! {

/// The slots of a reassembler: position `i` holds fragment `i`, or `None`
/// while it is missing.
pub type Slots = Seq<Option<Seq<u8>>>;

/// The slots after fragment `idx` arrived with `bytes`: missing slots are
/// added up to `idx` where the sequence was shorter, and slot `idx` holds
/// `bytes`, whatever it held before.
pub open spec fn spec_add(slots: Slots, idx: nat, bytes: Seq<u8>) -> Slots {
    let grown = if slots.len() <= idx {
        slots + Seq::new((idx + 1 - slots.len()) as nat, |i: int| None::<Seq<u8>>)
    } else {
        slots
    };
    grown.update(idx as int, Some(bytes))
}

/// The slots after each fragment of `adds` arrived, first to last.
pub open spec fn spec_add_all(slots: Slots, adds: Seq<(nat, Seq<u8>)>) -> Slots
    decreases adds.len(),
{
    if adds.len() == 0 {
        slots
    } else {
        spec_add(spec_add_all(slots, adds.drop_last()), adds.last().0, adds.last().1)
    }
}

/// Whether a fragment with index `idx` is among the arrivals `adds`.
pub open spec fn arrives(adds: Seq<(nat, Seq<u8>)>, idx: nat) -> bool {
    exists|j: int| 0 <= j < adds.len() && (#[trigger] adds[j]).0 == idx
}

/// There is at least one slot and no slot is missing.
pub open spec fn is_complete(slots: Slots) -> bool {
    &&& slots.len() > 0
    &&& forall|i: int| 0 <= i < slots.len() ==> (#[trigger] slots[i]) is Some
}

/// The fragments one after the other, in ascending order of their index.
pub open spec fn join(frags: Seq<Seq<u8>>) -> Seq<u8>
    decreases frags.len(),
{
    if frags.len() == 0 {
        Seq::empty()
    } else {
        join(frags.drop_last()) + frags.last()
    }
}

/// What the slots hold, where none is missing.
pub open spec fn fragments(slots: Slots) -> Seq<Seq<u8>> {
    Seq::new(slots.len(), |i: int| slots[i]->0)
}

/// The frame that the slots make up: the fragments joined where the slots
/// are complete, nothing otherwise.
pub open spec fn spec_frame(slots: Slots) -> Option<Seq<u8>> {
    if is_complete(slots) {
        Some(join(fragments(slots)))
    } else {
        None
    }
}

/// Collects the fragments of one video frame.
#[derive(Debug, PartialEq, Eq)]
pub struct FrameBuilder {
    pieces: Vec<Option<Vec<u8>>>,
}

impl View for FrameBuilder {
    type V = Slots;

    closed spec fn view(&self) -> Slots {
        Seq::new(
            self.pieces@.len(),
            |i: int|
                match self.pieces@[i] {
                    Some(v) => Some(v@),
                    None => None,
                },
        )
    }
}

impl FrameBuilder {
    /// A reassembler without slots.
    pub fn new() -> (b: Self)
        ensures
            b@ == Seq::<Option<Seq<u8>>>::empty(),
    {
        let b = FrameBuilder { pieces: Vec::new() };
        assert(b@ =~= Seq::<Option<Seq<u8>>>::empty());
        b
    }

    /// Whether there is no slot.
    pub fn is_empty(&self) -> (e: bool)
        ensures
            e == (self@.len() == 0),
    {
        self.pieces.len() == 0
    }

    /// Stores `buf` as fragment `pkt_id`. Fragments may come in any order;
    /// one that comes twice replaces what came first.
    pub fn add_piece(&mut self, pkt_id: u16, buf: &[u8])
        ensures
            final(self)@ == spec_add(old(self)@, pkt_id as nat, buf@),
    {
        let idx: usize = pkt_id as usize;
        while self.pieces.len() <= idx
            invariant
                idx == pkt_id,
                old(self).pieces@.len() <= self.pieces@.len(),
                self.pieces@.len() <= idx + 1 || self.pieces@.len() == old(self).pieces@.len(),
                forall|i: int|
                    0 <= i < old(self).pieces@.len() ==> self.pieces@[i] == old(self).pieces@[i],
                forall|i: int|
                    old(self).pieces@.len() <= i < self.pieces@.len() ==> self.pieces@[i]
                        is None,
            decreases idx + 1 - self.pieces@.len(),
        {
            self.pieces.push(None);
        }
        let piece = crate::wire::copy_range(buf, 0, buf.len());
        assert(piece@ =~= buf@);
        self.pieces[idx] = Some(piece);
        assert(self@ =~= spec_add(old(self)@, pkt_id as nat, buf@));
    }

    /// Hands out the frame where it is complete, and forgets every slot.
    pub fn finalize(&mut self) -> (out: Option<Vec<u8>>)
        ensures
            final(self)@ == Seq::<Option<Seq<u8>>>::empty(),
            match spec_frame(old(self)@) {
                Some(frame) => out matches Some(v) && v@ == frame,
                None => out is None,
            },
    {
        let n = self.pieces.len();
        let mut frame: Vec<u8> = Vec::new();
        let mut complete = n > 0;
        let mut i: usize = 0;
        while i < n
            invariant
                i <= n,
                n == self.pieces@.len(),
                self.pieces@ == old(self).pieces@,
                complete == (n > 0 && forall|k: int| 0 <= k < i ==> (#[trigger] self@[k]) is Some),
                complete ==> frame@ == join(fragments(self@).subrange(0, i as int)),
            decreases n - i,
        {
            match &self.pieces[i] {
                None => {
                    assert(self@[i as int] is None);
                    complete = false;
                },
                Some(piece) => {
                    assert(self@[i as int] == Some(piece@));
                    if complete {
                        crate::wire::write_bytes(&mut frame, piece.as_slice());
                        proof {
                            let frags = fragments(self@);
                            let upto = frags.subrange(0, i + 1);
                            assert(upto.drop_last() =~= frags.subrange(0, i as int));
                            assert(upto.last() == piece@);
                        }
                    }
                },
            }
            i += 1;
        }
        proof {
            let frags = fragments(old(self)@);
            assert(frags.subrange(0, n as int) =~= frags);
            if complete {
                assert(is_complete(old(self)@));
            } else {
                assert(!is_complete(old(self)@));
            }
        }
        self.pieces.clear();
        assert(self@ =~= Seq::<Option<Seq<u8>>>::empty());
        if complete {
            Some(frame)
        } else {
            None
        }
    }
}

/// What the slots look like after any run of arrivals into an empty
/// reassembler: a slot is filled exactly where its index arrived, it holds
/// the bytes of an arrival with that index, and the last slot is filled.
pub proof fn lemma_add_all_shape(adds: Seq<(nat, Seq<u8>)>)
    ensures
        ({
            let slots = spec_add_all(Seq::empty(), adds);
            &&& forall|j: int| 0 <= j < adds.len() ==> (#[trigger] adds[j]).0 < slots.len()
            &&& forall|i: int|
                0 <= i < slots.len() ==> ((#[trigger] slots[i]) is Some <==> arrives(
                    adds,
                    i as nat,
                ))
            &&& forall|i: int|
                0 <= i < slots.len() && (#[trigger] slots[i]) is Some ==> exists|j: int|
                    0 <= j < adds.len() && (#[trigger] adds[j]).0 == i && slots[i] == Some(
                        adds[j].1,
                    )
            &&& slots.len() > 0 ==> slots.last() is Some
            &&& adds.len() == 0 ==> slots.len() == 0
        }),
    decreases adds.len(),
{
    if adds.len() > 0 {
        let before = adds.drop_last();
        lemma_add_all_shape(before);
        let prev = spec_add_all(Seq::empty(), before);
        let last = adds.last();
        let slots = spec_add_all(Seq::empty(), adds);
        assert(slots == spec_add(prev, last.0, last.1));
        assert(adds[adds.len() - 1] == last);
        assert forall|j: int| 0 <= j < adds.len() implies (#[trigger] adds[j]).0
            < slots.len() by {
            if j < adds.len() - 1 {
                assert(before[j] == adds[j]);
            }
        }
        assert forall|i: int| 0 <= i < slots.len() implies ((#[trigger] slots[i]) is Some
            <==> arrives(adds, i as nat)) by {
            if i == last.0 {
                assert(adds[adds.len() - 1].0 == i);
            } else if i < prev.len() {
                assert(slots[i] == prev[i]);
                if prev[i] is Some {
                    assert(arrives(before, i as nat));
                    let j = choose|j: int| 0 <= j < before.len() && (#[trigger] before[j]).0 == i;
                    assert(adds[j] == before[j]);
                }
                if arrives(adds, i as nat) {
                    let j = choose|j: int| 0 <= j < adds.len() && (#[trigger] adds[j]).0 == i;
                    assert(j < adds.len() - 1);
                    assert(before[j] == adds[j]);
                }
            } else {
                assert(slots[i] is None);
                if arrives(adds, i as nat) {
                    let j = choose|j: int| 0 <= j < adds.len() && (#[trigger] adds[j]).0 == i;
                    assert(j < adds.len() - 1);
                    assert(before[j] == adds[j]);
                    assert(before[j].0 < prev.len());
                }
            }
        }
        assert forall|i: int| 0 <= i < slots.len() && (#[trigger] slots[i]) is Some implies exists|
            j: int,
        |
            0 <= j < adds.len() && (#[trigger] adds[j]).0 == i && slots[i] == Some(adds[j].1) by {
            if i == last.0 {
                assert(adds[adds.len() - 1].0 == i && slots[i] == Some(adds[adds.len() - 1].1));
            } else {
                assert(i < prev.len());
                assert(slots[i] == prev[i]);
                let j = choose|j: int|
                    0 <= j < before.len() && (#[trigger] before[j]).0 == i && prev[i] == Some(
                        before[j].1,
                    );
                assert(adds[j] == before[j]);
            }
        }
    }
}

/// Fragments `0` to `N - 1` of a frame, arriving in any order into an
/// empty reassembler, make up the frame: each index arrives at least once,
/// always with the bytes of its fragment, and the result is the fragments
/// joined in ascending order.
pub proof fn lemma_any_order_completes(frags: Seq<Seq<u8>>, adds: Seq<(nat, Seq<u8>)>)
    requires
        frags.len() > 0,
        forall|j: int|
            0 <= j < adds.len() ==> (#[trigger] adds[j]).0 < frags.len() && adds[j].1
                == frags[adds[j].0 as int],
        forall|i: nat| i < frags.len() ==> #[trigger] arrives(adds, i),
    ensures
        spec_frame(spec_add_all(Seq::empty(), adds)) == Some(join(frags)),
{
    lemma_add_all_shape(adds);
    let slots = spec_add_all(Seq::empty(), adds);
    let top = (frags.len() - 1) as nat;
    assert(arrives(adds, top));
    let j_top = choose|j: int| 0 <= j < adds.len() && (#[trigger] adds[j]).0 == top;
    assert(adds[j_top].0 < slots.len());
    if slots.len() > frags.len() {
        let i = slots.len() - 1;
        assert(slots[i] is Some);
        assert(arrives(adds, i as nat));
        let j = choose|j: int| 0 <= j < adds.len() && (#[trigger] adds[j]).0 == i;
        assert(adds[j].0 < frags.len());
    }
    assert(slots.len() == frags.len());
    assert forall|i: int| 0 <= i < slots.len() implies (#[trigger] slots[i]) == Some(
        frags[i],
    ) by {
        assert(arrives(adds, i as nat));
        let j0 = choose|j: int| 0 <= j < adds.len() && (#[trigger] adds[j]).0 == i;
        assert(slots[i] is Some);
        let j = choose|j: int|
            0 <= j < adds.len() && (#[trigger] adds[j]).0 == i && slots[i] == Some(adds[j].1);
        assert(adds[j].1 == frags[i]);
    }
    assert(is_complete(slots));
    assert(fragments(slots) =~= frags);
}

/// Where an index at or below one that arrived never arrived itself, the
/// slots make up no frame.
pub proof fn lemma_gap_gives_none(adds: Seq<(nat, Seq<u8>)>, missing: nat)
    requires
        exists|j: int| 0 <= j < adds.len() && missing <= (#[trigger] adds[j]).0,
        !arrives(adds, missing),
    ensures
        spec_frame(spec_add_all(Seq::empty(), adds)) is None,
{
    lemma_add_all_shape(adds);
    let slots = spec_add_all(Seq::empty(), adds);
    let j = choose|j: int| 0 <= j < adds.len() && missing <= (#[trigger] adds[j]).0;
    assert(adds[j].0 < slots.len());
    assert(slots[missing as int] is None);
}

} // verus!
