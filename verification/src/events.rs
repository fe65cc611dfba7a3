use vstd::prelude::*;

verus! {

/// The items of `s` whose flag in `alive` is set, in their original order.
pub open spec fn kept<A>(s: Seq<A>, alive: Seq<bool>) -> Seq<A>
    decreases s.len(),
{
    if s.len() == 0 {
        Seq::empty()
    } else {
        let rest = kept(s.drop_last(), alive.drop_last());
        if alive.last() {
            rest.push(s.last())
        } else {
            rest
        }
    }
}

/// Keeping every item keeps the sequence as it is.
pub proof fn lemma_kept_all<A>(s: Seq<A>)
    ensures
        kept(s, Seq::new(s.len(), |i: int| true)) == s,
    decreases s.len(),
{
    if s.len() > 0 {
        let all = Seq::new(s.len(), |i: int| true);
        assert(all.drop_last() =~= Seq::new(s.drop_last().len(), |i: int| true));
        lemma_kept_all(s.drop_last());
        assert(s.drop_last().push(s.last()) =~= s);
    }
}

/// What is kept is never longer than what it is kept from.
pub proof fn lemma_kept_len<A>(s: Seq<A>, alive: Seq<bool>)
    ensures
        kept(s, alive).len() <= s.len(),
    decreases s.len(),
{
    if s.len() > 0 {
        lemma_kept_len(s.drop_last(), alive.drop_last());
    }
}

/// Every item that is kept was among the items it was kept from.
pub proof fn lemma_kept_members<A>(s: Seq<A>, alive: Seq<bool>)
    ensures
        forall|j: int| 0 <= j < kept(s, alive).len() ==> s.contains(#[trigger] kept(s, alive)[j]),
    decreases s.len(),
{
    if s.len() > 0 {
        let s1 = s.drop_last();
        let rest = kept(s1, alive.drop_last());
        lemma_kept_members(s1, alive.drop_last());
        assert forall|j: int| 0 <= j < kept(s, alive).len() implies s.contains(#[trigger] kept(s, alive)[j]) by {
            if j < rest.len() {
                assert(s1.contains(rest[j]));
                let i = choose|i: int| 0 <= i < s1.len() && s1[i] == rest[j];
                assert(s[i] == rest[j]);
            } else {
                assert(s[s.len() - 1] == s.last());
            }
        }
    }
}

/// Calling `handler` is allowed with every event.
pub open spec fn accepts_all<T, F: Fn(T) -> bool>(handler: F) -> bool {
    forall|e: T| #[trigger] call_requires(handler, (e,))
}

/// `handler` was called with a clone of `event` and answered `answer`.
pub open spec fn delivered_to<T: Clone, F: Fn(T) -> bool>(event: T, handler: F, answer: bool) -> bool {
    exists|e: T| cloned(event, e) && #[trigger] call_ensures(handler, (e,), answer)
}

/// One firing: the event, the subscribers at that moment, and what each of
/// them answered.
pub open spec fn delivered<T: Clone, F: Fn(T) -> bool>(firing: (T, Seq<F>, Seq<bool>)) -> bool {
    &&& firing.2.len() == firing.1.len()
    &&& forall|i: int| 0 <= i < firing.1.len() ==> #[trigger] delivered_to(firing.0, firing.1[i], firing.2[i])
}

/// Firings that follow each other: each one reaches the subscribers that
/// the one before left (those that answered `true`), starting from
/// `start`; `end` is what the last one leaves.
pub open spec fn firing_chain<T, F>(start: Seq<F>, firings: Seq<(T, Seq<F>, Seq<bool>)>, end: Seq<F>) -> bool
    decreases firings.len(),
{
    if firings.len() == 0 {
        end == start
    } else {
        &&& firings[0].1 == start
        &&& firing_chain(kept(start, firings[0].2), firings.drop_first(), end)
    }
}

/// Going from `before` to `after`, the registry fired `events`, in order,
/// and nothing else: each firing handed a clone of its event to every
/// subscriber it had, and kept exactly those that answered `true`.
pub open spec fn fires<T: Clone, F: Fn(T) -> bool>(before: Events<T, F>, after: Events<T, F>, events: Seq<T>) -> bool {
    let n = before.firings().len();
    let new = after.firings().skip(n as int);
    &&& after.firings().len() == n + events.len()
    &&& after.firings().take(n as int) == before.firings()
    &&& forall|k: int| 0 <= k < events.len() ==> (#[trigger] new[k]).0 == events[k]
    &&& forall|k: int| 0 <= k < new.len() ==> delivered(#[trigger] new[k])
    &&& firing_chain(before.subscribers(), new, after.subscribers())
}

/// A registry of subscribers to which events are fired. A subscriber is
/// called with each event and answers whether it still listens; one that
/// answers `false` is forgotten.
#[verifier::reject_recursive_types(T)]
#[verifier::reject_recursive_types(F)]
pub struct Events<T, F: Fn(T) -> bool> {
    handlers: Vec<F>,
    record: Ghost<Seq<(T, Seq<F>, Seq<bool>)>>,
}

impl<T, F: Fn(T) -> bool> Events<T, F> {
    /// Every subscriber can be called with every event.
    #[verifier::type_invariant]
    spec fn all_accept(self) -> bool {
        forall|i: int| 0 <= i < self.handlers@.len() ==> accepts_all::<T, F>(#[trigger] self.handlers@[i])
    }

    /// The subscribers, in the order in which they subscribed.
    pub closed spec fn subscribers(&self) -> Seq<F> {
        self.handlers@
    }

    /// Every firing so far, in order: the event, the subscribers it
    /// reached, and their answers.
    pub closed spec fn firings(&self) -> Seq<(T, Seq<F>, Seq<bool>)> {
        self.record@
    }

    /// An empty registry that has fired nothing yet.
    pub fn new() -> (events: Self)
        ensures
            events.subscribers() == Seq::<F>::empty(),
            events.firings() == Seq::<(T, Seq<F>, Seq<bool>)>::empty(),
    {
        Events { handlers: Vec::new(), record: Ghost(Seq::empty()) }
    }

    /// Adds a subscriber after all the present ones.
    pub fn subscribe(&mut self, handler: F)
        requires
            accepts_all::<T, F>(handler),
        ensures
            final(self).subscribers() == old(self).subscribers().push(handler),
            final(self).firings() == old(self).firings(),
    {
        proof {
            use_type_invariant(&*self);
        }
        let mut handlers: Vec<F> = Vec::new();
        std::mem::swap(&mut handlers, &mut self.handlers);
        handlers.push(handler);
        self.handlers = handlers;
    }
}

/// The items of `items` whose flag in `flags` is set, in order.
fn keep_flagged<A>(items: Vec<A>, flags: &Vec<bool>) -> (result: Vec<A>)
    requires
        flags@.len() == items@.len(),
    ensures
        result@ == kept(items@, flags@),
{
    let ghost all = items@;
    let mut rest = items;
    let mut survivors: Vec<A> = Vec::new();
    let n = flags.len();
    let mut i: usize = 0;
    while rest.len() > 0
        invariant
            all.len() == flags@.len(),
            n == all.len(),
            i <= all.len(),
            rest@ == all.skip(i as int),
            survivors@ == kept(all.take(i as int), flags@.take(i as int)),
        decreases rest.len(),
    {
        assert(i < all.len()) by {
            assert(rest@.len() == all.len() - i);
        }
        let item = rest.remove(0);
        assert(item == all[i as int]);
        if flags[i] {
            survivors.push(item);
        }
        proof {
            let s1 = all.take(i + 1);
            let a1 = flags@.take(i + 1);
            assert(s1.drop_last() =~= all.take(i as int));
            assert(a1.drop_last() =~= flags@.take(i as int));
            assert(rest@ =~= all.skip(i + 1));
        }
        i = i + 1;
    }
    proof {
        assert(all.take(i as int) =~= all);
        assert(flags@.take(i as int) =~= flags@);
    }
    survivors
}

impl<T, F: Fn(T) -> bool> Default for Events<T, F> {
    /// An empty registry, as `Events::new` makes it.
    fn default() -> (events: Self)
        ensures
            events.subscribers() == Seq::<F>::empty(),
            events.firings() == Seq::<(T, Seq<F>, Seq<bool>)>::empty(),
    {
        Events::new()
    }
}

impl<T: Clone, F: Fn(T) -> bool> Events<T, F> {
    /// Hands a clone of `event` to every subscriber, in order, and forgets
    /// those that answer that they no longer listen.
    pub fn fire(&mut self, event: T)
        ensures
            fires(*old(self), *final(self), seq![event]),
    {
        proof {
            use_type_invariant(&*self);
        }
        let ghost before = self.handlers@;
        let ghost old_record = self.record@;
        let mut handlers: Vec<F> = Vec::new();
        std::mem::swap(&mut handlers, &mut self.handlers);
        let mut answers: Vec<bool> = Vec::new();
        let mut i: usize = 0;
        while i < handlers.len()
            invariant
                i <= handlers@.len(),
                handlers@ == before,
                answers@.len() == i,
                forall|j: int| 0 <= j < before.len() ==> accepts_all::<T, F>(#[trigger] before[j]),
                forall|j: int| 0 <= j < i ==> #[trigger] delivered_to(event, before[j], answers@[j]),
            decreases handlers@.len() - i,
        {
            let copy = event.clone();
            assert(accepts_all::<T, F>(before[i as int]));
            assert(call_requires(before[i as int], (copy,)));
            let answer = (handlers[i])(copy);
            proof {
                assert(cloned(event, copy));
                assert(delivered_to(event, before[i as int], answer));
            }
            answers.push(answer);
            i = i + 1;
        }
        let survivors = keep_flagged(handlers, &answers);
        proof {
            lemma_kept_members(before, answers@);
            assert forall|j: int| 0 <= j < survivors@.len() implies accepts_all::<T, F>(#[trigger] survivors@[j]) by {
                assert(before.contains(kept(before, answers@)[j]));
            }
        }
        self.handlers = survivors;
        self.record = Ghost(old_record.push((event, before, answers@)));
        proof {
            let firing = (event, before, answers@);
            let new = self.record@.skip(old_record.len() as int);
            assert(new =~= seq![firing]);
            assert(self.record@.take(old_record.len() as int) =~= old_record);
            assert(delivered(new[0]));
            assert(new.drop_first() =~= Seq::<(T, Seq<F>, Seq<bool>)>::empty());
            assert(firing_chain(kept(before, answers@), new.drop_first(), self.handlers@));
        }
    }
}

/// Two firing chains one after the other form one chain.
pub proof fn lemma_chain_concat<T, F>(
    start: Seq<F>,
    first: Seq<(T, Seq<F>, Seq<bool>)>,
    middle: Seq<F>,
    second: Seq<(T, Seq<F>, Seq<bool>)>,
    end: Seq<F>,
)
    requires
        firing_chain(start, first, middle),
        firing_chain(middle, second, end),
    ensures
        firing_chain(start, first + second, end),
    decreases first.len(),
{
    if first.len() == 0 {
        assert(first + second =~= second);
    } else {
        lemma_chain_concat(kept(start, first[0].2), first.drop_first(), middle, second, end);
        assert((first + second).drop_first() =~= first.drop_first() + second);
        assert((first + second)[0] == first[0]);
    }
}

/// Firing nothing is going from a registry to itself.
pub proof fn lemma_fires_nothing<T: Clone, F: Fn(T) -> bool>(events: Events<T, F>)
    ensures
        fires(events, events, Seq::<T>::empty()),
{
    let n = events.firings().len();
    assert(events.firings().take(n as int) =~= events.firings());
    assert(events.firings().skip(n as int) =~= Seq::<(T, Seq<F>, Seq<bool>)>::empty());
}

/// A registry that fired nothing still has the same subscribers and the
/// same record.
pub proof fn lemma_nothing_fired<T: Clone, F: Fn(T) -> bool>(before: Events<T, F>, after: Events<T, F>)
    requires
        fires(before, after, Seq::<T>::empty()),
    ensures
        after.subscribers() == before.subscribers(),
        after.firings() == before.firings(),
{
    let n = before.firings().len();
    assert(after.firings().skip(n as int).len() == 0);
    assert(after.firings() =~= after.firings().take(n as int));
}

/// Firing `first` and then `second` is firing `first + second`.
pub proof fn lemma_fires_then<T: Clone, F: Fn(T) -> bool>(
    a: Events<T, F>,
    b: Events<T, F>,
    c: Events<T, F>,
    first: Seq<T>,
    second: Seq<T>,
)
    requires
        fires(a, b, first),
        fires(b, c, second),
    ensures
        fires(a, c, first + second),
{
    let na = a.firings().len();
    let nb = b.firings().len();
    let ab = b.firings().skip(na as int);
    let bc = c.firings().skip(nb as int);
    let ac = c.firings().skip(na as int);
    assert(c.firings().take(nb as int) == b.firings());
    assert(ac =~= ab + bc) by {
        assert forall|k: int| 0 <= k < ab.len() implies ac[k] == ab[k] by {
            assert(c.firings().take(nb as int)[na + k] == c.firings()[na + k]);
        }
    }
    assert(c.firings().take(na as int) =~= a.firings()) by {
        assert forall|k: int| 0 <= k < na implies c.firings()[k] == a.firings()[k] by {
            assert(c.firings().take(nb as int)[k] == c.firings()[k]);
            assert(b.firings().take(na as int)[k] == b.firings()[k]);
        }
    }
    lemma_chain_concat(a.subscribers(), ab, b.subscribers(), bc, c.subscribers());
    assert forall|k: int| 0 <= k < (first + second).len() implies (#[trigger] ac[k]).0 == (first + second)[k] by {
        if k < first.len() {
            assert(ac[k] == ab[k]);
        } else {
            assert(ac[k] == bc[k - first.len()]);
        }
    }
    assert forall|k: int| 0 <= k < ac.len() implies delivered(#[trigger] ac[k]) by {
        if k < ab.len() {
            assert(ac[k] == ab[k]);
        } else {
            assert(ac[k] == bc[k - ab.len()]);
        }
    }
}

} // verus!

verus! {

/// The number of flags in `flags` that are set.
pub open spec fn count_set(flags: Seq<bool>) -> nat
    decreases flags.len(),
{
    if flags.len() == 0 {
        0
    } else {
        count_set(flags.drop_last()) + if flags.last() { 1nat } else { 0nat }
    }
}

/// An item whose flag is not set is dropped; one whose flag is set stays,
/// after what was kept before it.
pub proof fn lemma_kept_step<A>(s: Seq<A>, flags: Seq<bool>, x: A)
    ensures
        kept(s.push(x), flags.push(false)) == kept(s, flags),
        kept(s.push(x), flags.push(true)) == kept(s, flags).push(x),
{
    assert(s.push(x).drop_last() =~= s);
    assert(flags.push(false).drop_last() =~= flags);
    assert(flags.push(true).drop_last() =~= flags);
}

/// Exactly as many items are kept as there are set flags.
pub proof fn lemma_kept_count<A>(s: Seq<A>, flags: Seq<bool>)
    requires
        flags.len() == s.len(),
    ensures
        kept(s, flags).len() == count_set(flags),
    decreases s.len(),
{
    if s.len() > 0 {
        lemma_kept_count(s.drop_last(), flags.drop_last());
    }
}

/// When no flag is set, nothing is kept.
pub proof fn lemma_kept_none<A>(s: Seq<A>)
    ensures
        kept(s, Seq::new(s.len(), |i: int| false)).len() == 0,
    decreases s.len(),
{
    if s.len() > 0 {
        let none = Seq::new(s.len(), |i: int| false);
        assert(none.drop_last() =~= Seq::new(s.drop_last().len(), |i: int| false));
        lemma_kept_none(s.drop_last());
    }
}

/// `index` gives, for each kept item, the position it was kept from: a
/// position in `s` whose flag is set, the positions increasing.
pub open spec fn kept_from<A>(s: Seq<A>, flags: Seq<bool>, index: Seq<int>) -> bool {
    &&& index.len() == kept(s, flags).len()
    &&& forall|j: int| 0 <= j < index.len() ==> {
        &&& 0 <= #[trigger] index[j] < s.len()
        &&& flags[index[j]]
        &&& s[index[j]] == kept(s, flags)[j]
    }
    &&& forall|j: int, k: int| 0 <= j < k < index.len() ==> index[j] < index[k]
}

/// Every kept item is, in order, an item whose flag is set.
pub proof fn lemma_kept_only_set<A>(s: Seq<A>, flags: Seq<bool>)
    requires
        flags.len() == s.len(),
    ensures
        exists|index: Seq<int>| #[trigger] kept_from(s, flags, index),
    decreases s.len(),
{
    if s.len() == 0 {
        let index = Seq::<int>::empty();
        assert(kept_from(s, flags, index));
    } else {
        let s1 = s.drop_last();
        let f1 = flags.drop_last();
        lemma_kept_only_set(s1, f1);
        let index1 = choose|index: Seq<int>| #[trigger] kept_from(s1, f1, index);
        if flags.last() {
            let index = index1.push(s.len() - 1);
            assert(kept(s, flags) == kept(s1, f1).push(s.last()));
            assert forall|j: int| 0 <= j < index.len() implies {
                &&& 0 <= #[trigger] index[j] < s.len()
                &&& flags[index[j]]
                &&& s[index[j]] == kept(s, flags)[j]
            } by {
                if j < index1.len() {
                    assert(index[j] == index1[j]);
                    assert(s[index1[j]] == s1[index1[j]]);
                    assert(flags[index1[j]] == f1[index1[j]]);
                }
            }
            assert(kept_from(s, flags, index));
        } else {
            assert(kept(s, flags) == kept(s1, f1));
            assert forall|j: int| 0 <= j < index1.len() implies {
                &&& 0 <= #[trigger] index1[j] < s.len()
                &&& flags[index1[j]]
                &&& s[index1[j]] == kept(s, flags)[j]
            } by {
                assert(s[index1[j]] == s1[index1[j]]);
                assert(flags[index1[j]] == f1[index1[j]]);
            }
            assert(kept_from(s, flags, index1));
        }
    }
}

} // verus!
