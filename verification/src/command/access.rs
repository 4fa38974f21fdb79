//! What a bunch of commands accesses, and the exclusive hold on the
//! accessed buffer mappings while the commands run.

use std::collections::HashSet;
use std::ops::Deref;
use vstd::prelude::*;
use crate::handle::RawBuffer;
use crate::mapping::MappingGates;
use crate::{SubmissionError, SubmissionResult};

verus! {

/// `order` lists each buffer of `set` exactly once.
pub open spec fn lists(order: Seq<u64>, set: Set<u64>) -> bool {
    &&& order.no_duplicates()
    &&& order.to_set() == set
}

/// Takes the accesses of the buffers of `order` one after the other,
/// from gates whose taken accesses are `taken`, and stops at the first
/// buffer whose access is already taken: whether every access was taken,
/// and the taken accesses afterwards.
pub open spec fn take_in_order(taken: Set<u64>, order: Seq<u64>) -> (bool, Set<u64>)
    decreases order.len(),
{
    if order.len() == 0 {
        (true, taken)
    } else if taken.contains(order[0]) {
        (false, taken)
    } else {
        take_in_order(taken.insert(order[0]), order.drop_first())
    }
}

/// What taking the accesses in order comes to: it goes through exactly
/// when the order names no buffer twice and none that is taken already,
/// and then every buffer of the order is added to the taken ones.
proof fn lemma_take_in_order(taken: Set<u64>, order: Seq<u64>)
    ensures
        take_in_order(taken, order).0 <==> (order.no_duplicates() && order.to_set().disjoint(taken)),
        take_in_order(taken, order).0 ==> take_in_order(taken, order).1 == taken + order.to_set(),
        taken.subset_of(take_in_order(taken, order).1),
        take_in_order(taken, order).1.subset_of(taken + order.to_set()),
    decreases order.len(),
{
    if order.len() == 0 {
        assert(order.to_set() =~= Set::empty());
        assert(taken + order.to_set() =~= taken);
    } else {
        let x = order[0];
        let rest = order.drop_first();
        assert(order =~= seq![x] + rest);
        assert(order.to_set() =~= rest.to_set().insert(x)) by {
            assert forall|a: u64| order.to_set().contains(a) <==> rest.to_set().insert(x).contains(a) by {
                if order.contains(a) {
                    let k = choose|k: int| 0 <= k < order.len() && order[k] == a;
                    if k > 0 {
                        assert(rest[k - 1] == a);
                    }
                }
                if rest.contains(a) {
                    let k = choose|k: int| 0 <= k < rest.len() && rest[k] == a;
                    assert(order[k + 1] == a);
                }
                assert(order[0] == x);
            }
        }
        if taken.contains(x) {
            assert(!order.to_set().disjoint(taken)) by {
                assert(order.to_set().contains(x));
            }
        } else {
            lemma_take_in_order(taken.insert(x), rest);
            assert((order.no_duplicates() && order.to_set().disjoint(taken)) <==> (
            rest.no_duplicates() && rest.to_set().disjoint(taken.insert(x)))) by {
                if order.no_duplicates() && order.to_set().disjoint(taken) {
                    assert forall|i: int, j: int|
                        0 <= i < rest.len() && 0 <= j < rest.len() && i != j implies rest[i]
                        != rest[j] by {
                        assert(order[i + 1] == rest[i] && order[j + 1] == rest[j]);
                    }
                    assert forall|a: u64| rest.to_set().contains(a) implies !taken.insert(
                        x,
                    ).contains(a) by {
                        let k = choose|k: int| 0 <= k < rest.len() && rest[k] == a;
                        assert(order[k + 1] == a);
                        assert(order.to_set().contains(a));
                    }
                }
                if rest.no_duplicates() && rest.to_set().disjoint(taken.insert(x)) {
                    assert forall|i: int, j: int|
                        0 <= i < order.len() && 0 <= j < order.len() && i != j implies order[i]
                        != order[j] by {
                        if i > 0 && j > 0 {
                            assert(rest[i - 1] == order[i] && rest[j - 1] == order[j]);
                        } else if i == 0 {
                            assert(rest.to_set().contains(rest[j - 1]));
                        } else {
                            assert(rest.to_set().contains(rest[i - 1]));
                        }
                    }
                }
            }
            assert(taken.insert(x) + rest.to_set() =~= taken + order.to_set());
        }
    }
}

/// Two listings one after the other name no buffer twice exactly when the
/// listed sets are disjoint, and they name the union of the two sets.
proof fn lemma_lists_concat(first: Seq<u64>, a: Set<u64>, second: Seq<u64>, b: Set<u64>)
    requires
        lists(first, a),
        lists(second, b),
    ensures
        (first + second).no_duplicates() <==> a.disjoint(b),
        (first + second).to_set() == a + b,
{
    let both = first + second;
    assert forall|x: u64| both.to_set().contains(x) <==> (a + b).contains(x) by {
        if both.contains(x) {
            let k = choose|k: int| 0 <= k < both.len() && both[k] == x;
            if k < first.len() {
                assert(first[k] == x);
                assert(first.to_set().contains(x));
            } else {
                assert(second[k - first.len()] == x);
                assert(second.to_set().contains(x));
            }
        }
        if a.contains(x) {
            assert(first.to_set().contains(x));
            let k = choose|k: int| 0 <= k < first.len() && first[k] == x;
            assert(both[k] == x);
        } else if b.contains(x) {
            assert(second.to_set().contains(x));
            let k = choose|k: int| 0 <= k < second.len() && second[k] == x;
            assert(both[k + first.len()] == x);
        }
    }
    assert(both.to_set() =~= a + b);
    if a.disjoint(b) {
        assert forall|i: int, j: int| 0 <= i < first.len() && 0 <= j < second.len() implies first[i]
            != second[j] by {
            assert(first.to_set().contains(first[i]));
            assert(second.to_set().contains(second[j]));
        }
        vstd::seq_lib::lemma_no_dup_in_concat(first, second);
    }
    if both.no_duplicates() {
        assert forall|x: u64| a.contains(x) implies !b.contains(x) by {
            if b.contains(x) {
                assert(first.to_set().contains(x));
                assert(second.to_set().contains(x));
                let i = choose|i: int| 0 <= i < first.len() && first[i] == x;
                let j = choose|j: int| 0 <= j < second.len() && second[j] == x;
                assert(both[i] == both[j + first.len()]);
            }
        }
    }
}

/// The order in which a set yields its buffers when it is walked. It
/// depends on the set's contents and on its hasher, and is the same for
/// every walk of an unchanged set.
pub open spec fn set_order(set: &HashSet<u64>) -> Seq<u64> {
    vstd::std_specs::hash::into_iter_hash_keys(vstd::std_specs::hash::spec_hash_keys_iter(set))
}

/// The buffers of a set, each once, in the order in which the set yields them.
fn buffers_of(set: &HashSet<u64>) -> (buffers: Vec<u64>)
    ensures
        buffers@ == set_order(set),
        lists(buffers@, set@),
{
    let mut buffers: Vec<u64> = Vec::new();
    let keys = set.iter();
    let ghost all = vstd::std_specs::iter::IteratorSpec::remaining(&keys).unref();
    assert(all.to_set() == set@ && all.no_duplicates());
    for id in it: keys
        invariant
            it.seq().unref() == all,
            buffers@ == all.take(it.index()),
    {
        buffers.push(*id);
        assert(all.take(it.index() + 1) == all.take(it.index()).push(*id));
    }
    assert(buffers@ == all);
    buffers
}

/// A set holding the listed buffers.
fn set_of(buffers: &Vec<u64>) -> (set: HashSet<u64>)
    ensures
        set@ == buffers@.to_set(),
{
    let mut set: HashSet<u64> = HashSet::new();
    let mut i: usize = 0;
    while i < buffers.len()
        invariant
            0 <= i <= buffers.len(),
            set@ == buffers@.take(i as int).to_set(),
        decreases buffers.len() - i,
    {
        set.insert(buffers[i]);
        proof {
            assert(buffers@.take(i + 1) =~= buffers@.take(i as int).push(buffers@[i as int]));
            buffers@.take(i as int).lemma_push_to_set_commute(buffers@[i as int]);
        }
        i = i + 1;
    }
    assert(buffers@.take(i as int) =~= buffers@);
    set
}

/// Whether two sets hold the same buffers.
fn same_buffers(a: &HashSet<u64>, b: &HashSet<u64>) -> (same: bool)
    ensures
        same == (a@ == b@),
{
    let in_a = buffers_of(a);
    let in_b = buffers_of(b);
    proof {
        in_a@.unique_seq_to_set();
        in_b@.unique_seq_to_set();
    }
    if in_a.len() != in_b.len() {
        return false;
    }
    let mut i: usize = 0;
    while i < in_a.len()
        invariant
            0 <= i <= in_a.len(),
            lists(in_a@, a@),
            forall|k: int| 0 <= k < i ==> b@.contains(#[trigger] in_a@[k]),
        decreases in_a.len() - i,
    {
        if !b.contains(&in_a[i]) {
            assert(a@.contains(in_a@[i as int]));
            return false;
        }
        i = i + 1;
    }
    proof {
        assert forall|x: u64| a@.contains(x) implies b@.contains(x) by {
            assert(in_a@.to_set().contains(x));
            let k = choose|k: int| 0 <= k < in_a@.len() && in_a@[k] == x;
        }
        vstd::set_lib::lemma_subset_equality(a@, b@);
    }
    true
}

/// Registering an access of `buffer` to the recorded buffers `recorded`:
/// a mapped buffer joins them, an unmapped one is left out.
pub open spec fn record(recorded: Set<u64>, buffer: RawBuffer) -> Set<u64> {
    if buffer.is_mapped() {
        recorded.insert(buffer.id())
    } else {
        recorded
    }
}

/// Registering the accesses of `buffers` one after the other.
pub open spec fn record_all(recorded: Set<u64>, buffers: Seq<RawBuffer>) -> Set<u64>
    decreases buffers.len(),
{
    if buffers.len() == 0 {
        recorded
    } else {
        record_all(record(recorded, buffers[0]), buffers.drop_first())
    }
}

/// Informations about what is accessed by a bunch of commands: the mapped
/// buffers that the commands read and those that they write.
#[derive(Debug)]
pub struct AccessInfo {
    mapped_reads: HashSet<u64>,
    mapped_writes: HashSet<u64>,
}

impl AccessInfo {
    /// The mapped buffers that the commands read.
    pub closed spec fn reads(&self) -> Set<u64> {
        self.mapped_reads@
    }

    /// The mapped buffers that the commands write.
    pub closed spec fn writes(&self) -> Set<u64> {
        self.mapped_writes@
    }

    /// The order in which the read buffers are listed, taken and released.
    pub closed spec fn read_order(&self) -> Seq<u64> {
        set_order(&self.mapped_reads)
    }

    /// The order in which the written buffers are listed, taken and released.
    pub closed spec fn write_order(&self) -> Seq<u64> {
        set_order(&self.mapped_writes)
    }

    /// The mapped buffers that the commands read or write.
    pub open spec fn accessed(&self) -> Set<u64> {
        self.reads() + self.writes()
    }

    /// Whether the accesses can be taken from gates whose taken accesses
    /// are `taken`: no buffer is both read and written, and none of the
    /// accessed buffers is held already.
    pub open spec fn can_take(&self, taken: Set<u64>) -> bool {
        &&& self.reads().disjoint(self.writes())
        &&& self.accessed().disjoint(taken)
    }

    /// Creates empty access informations.
    pub fn new() -> (info: AccessInfo)
        ensures
            info.reads() == Set::<u64>::empty(),
            info.writes() == Set::<u64>::empty(),
    {
        AccessInfo { mapped_reads: HashSet::new(), mapped_writes: HashSet::new() }
    }

    /// Clears access informations.
    pub fn clear(&mut self)
        ensures
            final(self).reads() == Set::<u64>::empty(),
            final(self).writes() == Set::<u64>::empty(),
    {
        self.mapped_reads.clear();
        self.mapped_writes.clear();
    }

    /// Registers a buffer read access: a mapped buffer joins the reads.
    pub fn buffer_read(&mut self, buffer: &RawBuffer)
        ensures
            final(self).reads() == record(old(self).reads(), *buffer),
            final(self).writes() == old(self).writes(),
    {
        if buffer.is_mapped() {
            self.mapped_reads.insert(buffer.id());
        }
    }

    /// Registers a buffer write access: a mapped buffer joins the writes.
    pub fn buffer_write(&mut self, buffer: &RawBuffer)
        ensures
            final(self).writes() == record(old(self).writes(), *buffer),
            final(self).reads() == old(self).reads(),
    {
        if buffer.is_mapped() {
            self.mapped_writes.insert(buffer.id());
        }
    }

    /// Returns the mapped buffers that the GPU will read from.
    pub fn mapped_reads(&self) -> (buffers: Vec<u64>)
        ensures
            buffers@ == self.read_order(),
            lists(buffers@, self.reads()),
    {
        buffers_of(&self.mapped_reads)
    }

    /// Returns the mapped buffers that the GPU will write to.
    pub fn mapped_writes(&self) -> (buffers: Vec<u64>)
        ensures
            buffers@ == self.write_order(),
            lists(buffers@, self.writes()),
    {
        buffers_of(&self.mapped_writes)
    }

    /// Is there any mapped buffer read?
    pub fn has_mapped_reads(&self) -> (any: bool)
        ensures
            any == !self.reads().is_empty(),
    {
        !self.mapped_reads.is_empty()
    }

    /// Is there any mapped buffer write?
    pub fn has_mapped_writes(&self) -> (any: bool)
        ensures
            any == !self.writes().is_empty(),
    {
        !self.mapped_writes.is_empty()
    }

    /// The accessed buffers in the order in which they are taken and
    /// released: the reads, then the writes.
    fn access_order(&self) -> (order: Vec<u64>)
        ensures
            order@ == self.read_order() + self.write_order(),
            lists(self.read_order(), self.reads()),
            lists(self.write_order(), self.writes()),
    {
        let mut order = self.mapped_reads();
        let mut writes = self.mapped_writes();
        order.append(&mut writes);
        order
    }

    /// Takes all the accesses necessary for submission.
    ///
    /// The accesses of the read buffers, in the read order, then of the
    /// written ones, in the write order (the orders in which
    /// `mapped_reads` and `mapped_writes` list them), are taken one after
    /// the other; at the first that is taken already
    /// (held by another submission, or a buffer both read and written by
    /// these commands) the taking stops with `AccessOverlap`, and the
    /// accesses taken before it stay taken.
    pub fn take_accesses<'a>(&'a self, gates: &mut MappingGates) -> (res: SubmissionResult<
        AccessGuard<'a>,
    >)
        ensures
            take_in_order(old(gates)@, self.read_order() + self.write_order()) == (
                res is Ok,
                final(gates)@,
            ),
            res is Ok <==> self.can_take(old(gates)@),
            res matches Ok(guard) ==> guard.info() == *self && final(gates)@ == old(gates)@
                + self.accessed(),
            res matches Err(e) ==> e == SubmissionError::AccessOverlap,
            old(gates)@.subset_of(final(gates)@),
            final(gates)@.subset_of(old(gates)@ + self.accessed()),
    {
        let order = self.access_order();
        let ghost start = gates@;
        let ghost reads = self.read_order();
        let ghost writes = self.write_order();
        proof {
            lemma_take_in_order(start, order@);
            lemma_lists_concat(reads, self.reads(), writes, self.writes());
            assert(order@.skip(0) =~= order@);
        }
        let mut i: usize = 0;
        while i < order.len()
            invariant
                0 <= i <= order.len(),
                start == old(gates)@,
                reads == self.read_order(),
                writes == self.write_order(),
                lists(reads, self.reads()),
                lists(writes, self.writes()),
                order@ == reads + writes,
                take_in_order(start, order@).0 <==> self.can_take(start),
                take_in_order(start, order@).0 ==> take_in_order(start, order@).1 == start
                    + self.accessed(),
                start.subset_of(take_in_order(start, order@).1),
                take_in_order(start, order@).1.subset_of(start + self.accessed()),
                take_in_order(start, order@) == take_in_order(gates@, order@.skip(i as int)),
            decreases order.len() - i,
        {
            let buffer = order[i];
            let ghost before = gates@;
            assert(order@.skip(i as int)[0] == buffer);
            assert(order@.skip(i as int).drop_first() =~= order@.skip(i + 1));
            if !gates.take_access(buffer) {
                assert(gates@ =~= before);
                return Err(SubmissionError::AccessOverlap);
            }
            i = i + 1;
        }
        assert(order@.skip(i as int) =~= Seq::<u64>::empty());
        Ok(AccessGuard { inner: self })
    }
}

impl Clone for AccessInfo {
    fn clone(&self) -> (copy: AccessInfo)
        ensures
            copy.reads() == self.reads(),
            copy.writes() == self.writes(),
    {
        AccessInfo {
            mapped_reads: set_of(&buffers_of(&self.mapped_reads)),
            mapped_writes: set_of(&buffers_of(&self.mapped_writes)),
        }
    }
}

impl PartialEq for AccessInfo {
    fn eq(&self, other: &AccessInfo) -> (same: bool)
        ensures
            same == (self.reads() == other.reads() && self.writes() == other.writes()),
    {
        same_buffers(&self.mapped_reads, &other.mapped_reads) && same_buffers(
            &self.mapped_writes,
            &other.mapped_writes,
        )
    }
}

impl vstd::std_specs::cmp::PartialEqSpecImpl for AccessInfo {
    open spec fn obeys_eq_spec() -> bool {
        true
    }

    open spec fn eq_spec(&self, other: &AccessInfo) -> bool {
        self.reads() == other.reads() && self.writes() == other.writes()
    }
}

impl Eq for AccessInfo {

}

/// Two access informations are equal exactly when they record the same
/// mapped reads and the same mapped writes; in particular, one that writes
/// a buffer that the other does not write differs from it, and so does one
/// that reads a buffer the other does not read.
pub proof fn lemma_equal_exactly_when_same_accesses(a: AccessInfo, b: AccessInfo, x: u64)
    ensures
        vstd::std_specs::cmp::PartialEqSpec::eq_spec(&a, &b) <==> (a.reads() == b.reads()
            && a.writes() == b.writes()),
        a.writes().contains(x) && !b.writes().contains(x) ==> !vstd::std_specs::cmp::PartialEqSpec::eq_spec(&a, &b),
        a.reads().contains(x) && !b.reads().contains(x) ==> !vstd::std_specs::cmp::PartialEqSpec::eq_spec(&a, &b),
{
}

/// The exclusive hold, while submitted commands run, on the mappings of
/// the buffers that they access.
///
/// The hold lasts until `release` is called with the gates the accesses
/// were taken from: dropping the guard releases nothing.
#[derive(Debug)]
pub struct AccessGuard<'a> {
    inner: &'a AccessInfo,
}

impl<'a> AccessGuard<'a> {
    /// The access informations whose accesses are held.
    pub closed spec fn info(&self) -> AccessInfo {
        *self.inner
    }

    /// Returns the ids of the held buffers that the GPU will read from, in
    /// the read order.
    pub fn access_mapped_reads(&mut self) -> (buffers: AccessGuardBuffers)
        ensures
            *final(self) == *old(self),
            buffers.remaining() == old(self).info().read_order(),
            lists(buffers.remaining(), old(self).info().reads()),
    {
        AccessGuardBuffers::new(self.inner.mapped_reads())
    }

    /// Returns the ids of the held buffers that the GPU will write to, in
    /// the write order.
    pub fn access_mapped_writes(&mut self) -> (buffers: AccessGuardBuffers)
        ensures
            *final(self) == *old(self),
            buffers.remaining() == old(self).info().write_order(),
            lists(buffers.remaining(), old(self).info().writes()),
    {
        AccessGuardBuffers::new(self.inner.mapped_writes())
    }

    /// Returns the ids of the held buffers that the GPU will read from, in
    /// the read order, then of those that it will write to, in the write
    /// order.
    pub fn access_mapped(&mut self) -> (buffers: AccessGuardBuffersChain)
        ensures
            *final(self) == *old(self),
            buffers.fst_remaining() == old(self).info().read_order(),
            buffers.snd_remaining() == old(self).info().write_order(),
            lists(buffers.fst_remaining(), old(self).info().reads()),
            lists(buffers.snd_remaining(), old(self).info().writes()),
            buffers.remaining() == buffers.fst_remaining() + buffers.snd_remaining(),
    {
        AccessGuardBuffersChain {
            fst: AccessGuardBuffers::new(self.inner.mapped_reads()),
            snd: AccessGuardBuffers::new(self.inner.mapped_writes()),
        }
    }

    /// Gives up the hold: releases the access of every buffer that the
    /// commands read or write. It must be called to end the hold; dropping
    /// the guard does not release the accesses.
    pub fn release(self, gates: &mut MappingGates)
        ensures
            final(gates)@ == old(gates)@ - self.info().accessed(),
    {
        let order = self.inner.access_order();
        let ghost start = gates@;
        let ghost reads = self.info().read_order();
        let ghost writes = self.info().write_order();
        proof {
            lemma_lists_concat(reads, self.info().reads(), writes, self.info().writes());
            assert(order@.take(0).to_set() =~= Set::<u64>::empty());
            assert(start - Set::<u64>::empty() =~= start);
        }
        let mut i: usize = 0;
        while i < order.len()
            invariant
                0 <= i <= order.len(),
                order@.to_set() == self.info().accessed(),
                gates@ == start - order@.take(i as int).to_set(),
            decreases order.len() - i,
        {
            let ghost before = gates@;
            gates.release_access(order[i]);
            proof {
                assert(order@.take(i + 1) =~= order@.take(i as int).push(order@[i as int]));
                order@.take(i as int).lemma_push_to_set_commute(order@[i as int]);
                assert(gates@ =~= start - order@.take(i + 1).to_set());
            }
            i = i + 1;
        }
        assert(order@.take(i as int) =~= order@);
    }
}

impl<'a> Deref for AccessGuard<'a> {
    type Target = AccessInfo;

    fn deref(&self) -> (info: &AccessInfo)
        ensures
            *info == self.info(),
    {
        self.inner
    }
}

/// Handing out the next of the buffers `remaining`: the buffer handed out,
/// if any is left, and the buffers left afterwards.
pub open spec fn hand_out(remaining: Seq<u64>) -> (Option<u64>, Seq<u64>) {
    if remaining.len() == 0 {
        (None, remaining)
    } else {
        (Some(remaining[0]), remaining.drop_first())
    }
}

/// What `count` hand-outs, one after the other, give from the buffers
/// `remaining`.
pub open spec fn hand_out_times(remaining: Seq<u64>, count: nat) -> Seq<Option<u64>>
    decreases count,
{
    if count == 0 {
        Seq::empty()
    } else {
        seq![hand_out(remaining).0] + hand_out_times(hand_out(remaining).1, (count - 1) as nat)
    }
}

/// Handing out the next buffer of a chain, from the read buffers `fst`
/// while any is left, then from the written buffers `snd`: the buffer
/// handed out, and the read and written buffers left afterwards.
pub open spec fn chain_hand_out(fst: Seq<u64>, snd: Seq<u64>) -> (Option<u64>, Seq<u64>, Seq<u64>) {
    if fst.len() > 0 {
        (Some(fst[0]), fst.drop_first(), snd)
    } else {
        (hand_out(snd).0, fst, hand_out(snd).1)
    }
}

/// What `count` hand-outs of a chain, one after the other, give.
pub open spec fn chain_hand_out_times(fst: Seq<u64>, snd: Seq<u64>, count: nat) -> Seq<
    Option<u64>,
>
    decreases count,
{
    if count == 0 {
        Seq::empty()
    } else {
        let (buffer, fst_left, snd_left) = chain_hand_out(fst, snd);
        seq![buffer] + chain_hand_out_times(fst_left, snd_left, (count - 1) as nat)
    }
}

/// The ids of the mapped buffers of one kind of access that a guard holds, handed out
/// one at a time.
#[derive(Debug)]
pub struct AccessGuardBuffers {
    buffers: Vec<u64>,
    next: usize,
}

impl AccessGuardBuffers {
    #[verifier::type_invariant]
    spec fn well_formed(&self) -> bool {
        self.next <= self.buffers@.len()
    }

    /// The buffers still to be handed out, in order.
    pub closed spec fn remaining(&self) -> Seq<u64> {
        self.buffers@.skip(self.next as int)
    }

    fn new(buffers: Vec<u64>) -> (handed: AccessGuardBuffers)
        ensures
            handed.remaining() == buffers@,
    {
        let handed = AccessGuardBuffers { buffers, next: 0 };
        assert(handed.buffers@.skip(0) =~= handed.buffers@);
        handed
    }

    /// Hands out the next buffer, if any is left.
    pub fn next(&mut self) -> (buffer: Option<u64>)
        ensures
            (buffer, final(self).remaining()) == hand_out(old(self).remaining()),
    {
        proof {
            use_type_invariant(&*self);
        }
        if self.next < self.buffers.len() {
            let buffer = self.buffers[self.next];
            self.next = self.next + 1;
            assert(old(self).remaining().drop_first() =~= self.remaining());
            Some(buffer)
        } else {
            None
        }
    }
}

/// The ids of the mapped buffers that a guard holds, read ones first, then written
/// ones, handed out one at a time.
#[derive(Debug)]
pub struct AccessGuardBuffersChain {
    fst: AccessGuardBuffers,
    snd: AccessGuardBuffers,
}

impl AccessGuardBuffersChain {
    /// The read buffers still to be handed out.
    pub closed spec fn fst_remaining(&self) -> Seq<u64> {
        self.fst.remaining()
    }

    /// The written buffers still to be handed out.
    pub closed spec fn snd_remaining(&self) -> Seq<u64> {
        self.snd.remaining()
    }

    /// The buffers still to be handed out, in order.
    pub open spec fn remaining(&self) -> Seq<u64> {
        self.fst_remaining() + self.snd_remaining()
    }

    /// Hands out the next buffer, if any is left.
    pub fn next(&mut self) -> (buffer: Option<u64>)
        ensures
            (buffer, final(self).fst_remaining(), final(self).snd_remaining()) == chain_hand_out(
                old(self).fst_remaining(),
                old(self).snd_remaining(),
            ),
    {
        match self.fst.next() {
            Some(buffer) => Some(buffer),
            None => self.snd.next(),
        }
    }
}

} // verus!

verus! {

/// Releasing the guard of a successful taking gives the gates back as they
/// were before the accesses were taken.
pub proof fn lemma_release_restores_gates(info: AccessInfo, taken: Set<u64>)
    requires
        info.can_take(taken),
    ensures
        (taken + info.accessed()) - info.accessed() == taken,
{
    assert((taken + info.accessed()) - info.accessed() =~= taken);
}

/// While a guard holds its accesses, taking the accesses of any bunch of
/// commands that shares a mapped buffer with it fails.
pub proof fn lemma_held_accesses_exclude_overlap(
    held: AccessInfo,
    other: AccessInfo,
    taken: Set<u64>,
)
    requires
        held.can_take(taken),
        !held.accessed().disjoint(other.accessed()),
    ensures
        !other.can_take(taken + held.accessed()),
{
}

/// Commands that access disjoint sets of mapped buffers can hold their
/// accesses at the same time: the second taking succeeds after the first.
pub proof fn lemma_disjoint_accesses_coexist(first: AccessInfo, second: AccessInfo, taken: Set<u64>)
    requires
        first.can_take(taken),
        second.can_take(taken),
        first.accessed().disjoint(second.accessed()),
    ensures
        second.can_take(taken + first.accessed()),
{
}

/// Commands that both read and write the same mapped buffer can never
/// take their accesses.
pub proof fn lemma_read_and_write_of_one_buffer_overlap(info: AccessInfo, taken: Set<u64>)
    requires
        !info.reads().disjoint(info.writes()),
    ensures
        !info.can_take(taken),
{
}

} // verus!

verus! {

/// Whether there is any mapped read (or write) agrees with whether the
/// listing of the mapped reads (or writes) hands out any buffer.
pub proof fn lemma_has_mapped_agrees_with_listing(order: Seq<u64>, set: Set<u64>)
    requires
        lists(order, set),
    ensures
        (order.len() > 0) <==> !set.is_empty(),
{
    if order.len() > 0 {
        assert(set.contains(order[0]));
    } else {
        assert(set =~= Set::<u64>::empty());
    }
}

} // verus!

verus! {

/// The ids of the mapped buffers among `buffers`.
pub open spec fn mapped_ids(buffers: Seq<RawBuffer>) -> Set<u64> {
    Set::new(
        |id: u64|
            exists|i: int|
                0 <= i < buffers.len() && #[trigger] buffers[i].id() == id && buffers[i].is_mapped(),
    )
}

/// The buffers recorded by registering the accesses of `buffers` one after
/// the other, from freshly created or cleared access informations, are
/// exactly the mapped ones among them. This holds of the reads that
/// `buffer_read` records and of the writes that `buffer_write` records, and
/// `mapped_reads` and `mapped_writes` list exactly these.
pub proof fn lemma_recorded_buffers_are_the_mapped_ones(buffers: Seq<RawBuffer>)
    ensures
        record_all(Set::<u64>::empty(), buffers) == mapped_ids(buffers),
{
    lemma_record_all(Set::<u64>::empty(), buffers);
    assert(Set::<u64>::empty() + mapped_ids(buffers) =~= mapped_ids(buffers));
}

proof fn lemma_record_all(recorded: Set<u64>, buffers: Seq<RawBuffer>)
    ensures
        record_all(recorded, buffers) == recorded + mapped_ids(buffers),
    decreases buffers.len(),
{
    if buffers.len() == 0 {
        assert(mapped_ids(buffers) =~= Set::<u64>::empty());
        assert(recorded + mapped_ids(buffers) =~= recorded);
    } else {
        let first = buffers[0];
        let rest = buffers.drop_first();
        lemma_record_all(record(recorded, first), rest);
        assert forall|id: u64|
            (record(recorded, first) + mapped_ids(rest)).contains(id) <==> (recorded
                + mapped_ids(buffers)).contains(id) by {
            if mapped_ids(rest).contains(id) {
                let i = choose|i: int|
                    0 <= i < rest.len() && #[trigger] rest[i].id() == id && rest[i].is_mapped();
                assert(buffers[i + 1] == rest[i]);
            }
            if mapped_ids(buffers).contains(id) {
                let i = choose|i: int|
                    0 <= i < buffers.len() && #[trigger] buffers[i].id() == id
                        && buffers[i].is_mapped();
                if i > 0 {
                    assert(rest[i - 1] == buffers[i]);
                }
            }
            if first.is_mapped() {
                assert(buffers[0].id() == first.id());
            }
        }
        assert(record(recorded, first) + mapped_ids(rest) =~= recorded + mapped_ids(buffers));
    }
}

/// Handing out the buffers of a guard one at a time yields each buffer of
/// its listing once, in order, and after that nothing, for ever.
pub proof fn lemma_hand_out_yields_listing_then_nothing(remaining: Seq<u64>, count: nat)
    requires
        count >= remaining.len(),
    ensures
        hand_out_times(remaining, count) == remaining.map_values(|b: u64| Some(b)) + Seq::new(
            (count - remaining.len()) as nat,
            |i: int| None::<u64>,
        ),
    decreases count,
{
    let expected = remaining.map_values(|b: u64| Some(b)) + Seq::new(
        (count - remaining.len()) as nat,
        |i: int| None::<u64>,
    );
    if count == 0 {
        assert(hand_out_times(remaining, count) =~= expected);
    } else {
        let rest = hand_out(remaining).1;
        lemma_hand_out_yields_listing_then_nothing(rest, (count - 1) as nat);
        assert(hand_out_times(remaining, count) =~= expected);
    }
}

/// A chain hands out what handing out the read buffers followed by the
/// written ones does.
proof fn lemma_chain_is_concatenation(fst: Seq<u64>, snd: Seq<u64>, count: nat)
    ensures
        chain_hand_out_times(fst, snd, count) == hand_out_times(fst + snd, count),
    decreases count,
{
    if count > 0 {
        let (buffer, fst_left, snd_left) = chain_hand_out(fst, snd);
        lemma_chain_is_concatenation(fst_left, snd_left, (count - 1) as nat);
        if fst.len() > 0 {
            assert((fst + snd).drop_first() =~= fst_left + snd_left);
        } else {
            assert(fst + snd =~= snd);
            assert(fst_left + snd_left =~= hand_out(snd).1);
        }
    }
}

/// The chain of a guard hands out each read buffer, in the read order, then
/// each written buffer, in the write order, and after that nothing, for
/// ever.
pub proof fn lemma_chain_yields_reads_then_writes_then_nothing(
    fst: Seq<u64>,
    snd: Seq<u64>,
    count: nat,
)
    requires
        count >= fst.len() + snd.len(),
    ensures
        chain_hand_out_times(fst, snd, count) == (fst + snd).map_values(|b: u64| Some(b))
            + Seq::new((count - fst.len() - snd.len()) as nat, |i: int| None::<u64>),
{
    lemma_chain_is_concatenation(fst, snd, count);
    lemma_hand_out_yields_listing_then_nothing(fst + snd, count);
}

} // verus!
