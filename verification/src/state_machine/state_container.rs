use super::state_id::StateID;
use vstd::prelude::*;

verus! {

/// No id occurs twice among the entries.
pub open spec fn distinct_ids<S>(entries: Seq<(StateID, S)>) -> bool {
    forall|i: int, j: int|
        0 <= i < j < entries.len() ==> (#[trigger] entries[i]).0@ != (#[trigger] entries[j]).0@
}

/// Some entry has the id.
pub open spec fn has_id<S>(entries: Seq<(StateID, S)>, id: Seq<char>) -> bool {
    exists|i: int| 0 <= i < entries.len() && (#[trigger] entries[i]).0@ == id
}

/// The place of an entry with the id, where there is one.
pub open spec fn position<S>(entries: Seq<(StateID, S)>, id: Seq<char>) -> int {
    choose|i: int| 0 <= i < entries.len() && (#[trigger] entries[i]).0@ == id
}

/// The mapping that the entries stand for: each id that occurs, to the state
/// of its entry.
pub open spec fn registry<S>(entries: Seq<(StateID, S)>) -> Map<Seq<char>, S> {
    Map::new(|id: Seq<char>| has_id(entries, id), |id: Seq<char>| entries[position(entries, id)].1)
}

/// The entries after one registration: the entry with the same id gives way
/// where it stands, a new id goes to the end.
pub open spec fn put<S>(entries: Seq<(StateID, S)>, id: StateID, state: S) -> Seq<(StateID, S)> {
    if has_id(entries, id@) {
        entries.update(position(entries, id@), (id, state))
    } else {
        entries.push((id, state))
    }
}

/// The entries after the registration of each pair in turn.
pub open spec fn put_all<S>(entries: Seq<(StateID, S)>, pairs: Seq<(StateID, S)>) -> Seq<
    (StateID, S),
>
    decreases pairs.len(),
{
    if pairs.len() == 0 {
        entries
    } else {
        put(put_all(entries, pairs.drop_last()), pairs.last().0, pairs.last().1)
    }
}

/// The mapping after the insertion of each pair in turn.
pub open spec fn insert_all<S>(states: Map<Seq<char>, S>, pairs: Seq<(StateID, S)>) -> Map<
    Seq<char>,
    S,
>
    decreases pairs.len(),
{
    if pairs.len() == 0 {
        states
    } else {
        insert_all(states, pairs.drop_last()).insert(pairs.last().0@, pairs.last().1)
    }
}

/// Among entries with distinct ids, an entry with the id is at the id's
/// position.
pub proof fn lemma_position_of<S>(entries: Seq<(StateID, S)>, i: int)
    requires
        distinct_ids(entries),
        0 <= i < entries.len(),
    ensures
        has_id(entries, entries[i].0@),
        position(entries, entries[i].0@) == i,
        registry(entries).contains_key(entries[i].0@),
        registry(entries)[entries[i].0@] == entries[i].1,
{
    let id = entries[i].0@;
    let at = position(entries, id);
    assert(0 <= at < entries.len() && entries[at].0@ == id);
    if at < i {
        assert(entries[at].0@ != entries[i].0@);
    } else if i < at {
        assert(entries[i].0@ != entries[at].0@);
    }
}

/// One registration keeps the ids distinct, and is one insertion into the
/// mapping.
pub proof fn lemma_put<S>(entries: Seq<(StateID, S)>, id: StateID, state: S)
    requires
        distinct_ids(entries),
    ensures
        distinct_ids(put(entries, id, state)),
        registry(put(entries, id, state)) == registry(entries).insert(id@, state),
{
    let after = put(entries, id, state);
    let at = if has_id(entries, id@) {
        position(entries, id@)
    } else {
        entries.len() as int
    };
    assert(0 <= at < after.len());
    assert(after[at] == (id, state));
    assert forall|i: int| 0 <= i < after.len() && i != at implies after[i] == entries[i]
        && entries[i].0@ != id@ by {
        if has_id(entries, id@) {
            if i < at {
                assert(entries[i].0@ != entries[at].0@);
            } else {
                assert(entries[at].0@ != entries[i].0@);
            }
        }
    }
    assert forall|i: int, j: int| 0 <= i < j < after.len() implies (#[trigger] after[i]).0@ != (
    #[trigger] after[j]).0@ by {
        if i != at && j != at {
            assert(entries[i].0@ != entries[j].0@);
        }
    }
    assert forall|key: Seq<char>| #[trigger]
        registry(after).contains_key(key) == registry(entries).insert(id@, state).contains_key(
            key,
        ) by {
        if key == id@ {
            assert(after[at].0@ == key);
        } else if has_id(entries, key) {
            let i = position(entries, key);
            assert(after[i].0@ == key);
        } else if has_id(after, key) {
            let i = position(after, key);
            assert(entries[i].0@ == key);
        }
    }
    assert forall|key: Seq<char>| #[trigger] registry(after).contains_key(key) implies registry(
        after,
    )[key] == registry(entries).insert(id@, state)[key] by {
        let i = position(after, key);
        lemma_position_of(after, i);
        if key != id@ {
            lemma_position_of(entries, i);
        }
    }
    assert(registry(after) =~= registry(entries).insert(id@, state));
}

/// Registrations in turn keep the ids distinct, and are insertions in turn
/// into the mapping.
pub proof fn lemma_put_all<S>(entries: Seq<(StateID, S)>, pairs: Seq<(StateID, S)>)
    requires
        distinct_ids(entries),
    ensures
        distinct_ids(put_all(entries, pairs)),
        registry(put_all(entries, pairs)) == insert_all(registry(entries), pairs),
    decreases pairs.len(),
{
    if pairs.len() > 0 {
        lemma_put_all(entries, pairs.drop_last());
        lemma_put(put_all(entries, pairs.drop_last()), pairs.last().0, pairs.last().1);
    }
}

/// Insertions never take an id away: an id that was there stays, and keeps
/// its state unless a pair names it.
pub proof fn lemma_insert_all_keeps<S>(
    states: Map<Seq<char>, S>,
    pairs: Seq<(StateID, S)>,
    id: Seq<char>,
)
    requires
        states.contains_key(id),
    ensures
        insert_all(states, pairs).contains_key(id),
        (forall|j: int| 0 <= j < pairs.len() ==> (#[trigger] pairs[j]).0@ != id) ==> insert_all(
            states,
            pairs,
        )[id] == states[id],
    decreases pairs.len(),
{
    if pairs.len() > 0 {
        let front = pairs.drop_last();
        lemma_insert_all_keeps(states, front, id);
        if forall|j: int| 0 <= j < pairs.len() ==> (#[trigger] pairs[j]).0@ != id {
            assert(pairs[pairs.len() - 1].0@ != id);
            assert forall|j: int| 0 <= j < front.len() implies (#[trigger] front[j]).0@ != id by {
                assert(front[j] == pairs[j]);
            }
        }
    }
}

/// After insertions every id among the pairs is there, and of the pairs with
/// one id the last decides the state.
pub proof fn lemma_insert_all_last_wins<S>(
    states: Map<Seq<char>, S>,
    pairs: Seq<(StateID, S)>,
    i: int,
)
    requires
        0 <= i < pairs.len(),
    ensures
        insert_all(states, pairs).contains_key(pairs[i].0@),
        (forall|j: int| i < j < pairs.len() ==> (#[trigger] pairs[j]).0@ != pairs[i].0@)
            ==> insert_all(states, pairs)[pairs[i].0@] == pairs[i].1,
    decreases pairs.len(),
{
    let front = pairs.drop_last();
    let last = pairs.len() - 1;
    if i < last {
        assert(front[i] == pairs[i]);
        lemma_insert_all_last_wins(states, front, i);
        if forall|j: int| i < j < pairs.len() ==> (#[trigger] pairs[j]).0@ != pairs[i].0@ {
            assert(pairs[last].0@ != pairs[i].0@);
            assert forall|j: int| i < j < front.len() implies (#[trigger] front[j]).0@
                != front[i].0@ by {
                assert(front[j] == pairs[j]);
            }
        }
    }
}

/// Written out as the list of its pairs and read back, a container is what
/// it was: the same ids with the same states, in the same order.
pub proof fn lemma_pairs_round_trip<S>(entries: Seq<(StateID, S)>)
    requires
        distinct_ids(entries),
    ensures
        put_all(Seq::<(StateID, S)>::empty(), entries) == entries,
        insert_all(Map::<Seq<char>, S>::empty(), entries) == registry(entries),
    decreases entries.len(),
{
    let none = Seq::<(StateID, S)>::empty();
    if entries.len() == 0 {
        assert(entries =~= none);
    } else {
        let front = entries.drop_last();
        let last = entries.last();
        assert forall|i: int, j: int| 0 <= i < j < front.len() implies (#[trigger] front[i]).0@
            != (#[trigger] front[j]).0@ by {
            assert(entries[i].0@ != entries[j].0@);
        }
        lemma_pairs_round_trip(front);
        if has_id(front, last.0@) {
            let at = position(front, last.0@);
            assert(entries[at].0@ != entries[entries.len() - 1].0@);
        }
        assert(put(front, last.0, last.1) =~= entries);
    }
    assert(registry(none) =~= Map::<Seq<char>, S>::empty());
    lemma_put_all(none, entries);
}

/// The mapping does not depend on the order of registration: two lists
/// without repeated ids that hold the same pairs stand for the same mapping.
pub proof fn lemma_registry_ignores_order<S>(first: Seq<(StateID, S)>, second: Seq<(StateID, S)>)
    requires
        distinct_ids(first),
        distinct_ids(second),
        forall|i: int|
            0 <= i < first.len() ==> exists|j: int|
                0 <= j < second.len() && (#[trigger] second[j]).0@ == (#[trigger] first[i]).0@
                    && second[j].1 == first[i].1,
        forall|j: int|
            0 <= j < second.len() ==> exists|i: int|
                0 <= i < first.len() && (#[trigger] first[i]).0@ == (#[trigger] second[j]).0@
                    && first[i].1 == second[j].1,
    ensures
        registry(first) == registry(second),
{
    assert forall|key: Seq<char>| #[trigger]
        registry(first).contains_key(key) == registry(second).contains_key(key) by {
        if has_id(first, key) {
            let i = position(first, key);
            let j = choose|j: int|
                0 <= j < second.len() && (#[trigger] second[j]).0@ == first[i].0@ && second[j].1
                    == first[i].1;
            assert(second[j].0@ == key);
        }
        if has_id(second, key) {
            let j = position(second, key);
            let i = choose|i: int|
                0 <= i < first.len() && (#[trigger] first[i]).0@ == second[j].0@ && first[i].1
                    == second[j].1;
            assert(first[i].0@ == key);
        }
    }
    assert forall|key: Seq<char>| #[trigger] registry(first).contains_key(key) implies registry(
        first,
    )[key] == registry(second)[key] by {
        let i = position(first, key);
        let j = choose|j: int|
            0 <= j < second.len() && (#[trigger] second[j]).0@ == first[i].0@ && second[j].1
                == first[i].1;
        lemma_position_of(first, i);
        lemma_position_of(second, j);
    }
    assert(registry(first) =~= registry(second));
}

/// The states of a machine under their ids. No id occurs twice; the entries
/// keep the order in which their ids were first registered.
#[derive(Debug)]
pub struct StateContainer<S> {
    entries: Vec<(StateID, S)>,
}

impl<S> View for StateContainer<S> {
    type V = Map<Seq<char>, S>;

    open spec fn view(&self) -> Map<Seq<char>, S> {
        registry(self.entries())
    }
}

impl<S> StateContainer<S> {
    /// What holds of every container: no id occurs twice.
    #[verifier::type_invariant]
    pub open spec fn valid(&self) -> bool {
        distinct_ids(self.entries())
    }

    /// The entries in their order.
    pub closed spec fn entries(&self) -> Seq<(StateID, S)> {
        self.entries@
    }

    /// A container without states.
    pub fn new() -> (empty: Self)
        ensures
            empty.entries() == Seq::<(StateID, S)>::empty(),
            empty@ == Map::<Seq<char>, S>::empty(),
    {
        let empty = StateContainer { entries: Vec::new() };
        assert(empty@ =~= Map::<Seq<char>, S>::empty());
        empty
    }

    /// The number of states.
    pub fn len(&self) -> (count: usize)
        ensures
            count == self.entries().len(),
    {
        self.entries.len()
    }

    /// The place of the entry with the id, if there is one.
    fn find(&self, id: &StateID) -> (found: Option<usize>)
        ensures
            match found {
                Some(at) => has_id(self.entries(), id@) && at == position(self.entries(), id@),
                None => !has_id(self.entries(), id@),
            },
    {
        proof {
            use_type_invariant(self);
        }
        let mut at: usize = 0;
        while at < self.entries.len()
            invariant
                at <= self.entries@.len(),
                distinct_ids(self.entries@),
                forall|i: int| 0 <= i < at ==> (#[trigger] self.entries@[i]).0@ != id@,
            decreases self.entries@.len() - at,
        {
            if self.entries[at].0 == *id {
                proof {
                    lemma_position_of(self.entries@, at as int);
                }
                return Some(at);
            }
            at += 1;
        }
        None
    }

    /// The state under the id, if there is one.
    pub fn get(&self, id: &StateID) -> (found: Option<&S>)
        ensures
            match found {
                Some(state) => self@.contains_key(id@) && *state == self@[id@],
                None => !self@.contains_key(id@),
            },
    {
        match self.find(id) {
            Some(at) => Some(&self.entries[at].1),
            None => None,
        }
    }

    /// Whether there is a state under the id.
    pub fn contains(&self, id: &StateID) -> (known: bool)
        ensures
            known == self@.contains_key(id@),
    {
        self.find(id).is_some()
    }

    /// Puts the state under the id. A state that was there before gives way
    /// without notice.
    pub fn insert(&mut self, id: StateID, state: S)
        ensures
            final(self).entries() == put(old(self).entries(), id, state),
            final(self)@ == old(self)@.insert(id@, state),
    {
        proof {
            use_type_invariant(&*self);
            lemma_put(self.entries@, id, state);
        }
        let found = self.find(&id);
        let mut entries: Vec<(StateID, S)> = Vec::new();
        core::mem::swap(&mut self.entries, &mut entries);
        match found {
            Some(at) => {
                entries.set(at, (id, state));
            },
            None => {
                entries.push((id, state));
            },
        }
        core::mem::swap(&mut self.entries, &mut entries);
    }

    /// Registers each pair in turn. Of two pairs with the same id the later
    /// one stays.
    pub fn extend(&mut self, pairs: Vec<(StateID, S)>)
        ensures
            final(self).entries() == put_all(old(self).entries(), pairs@),
            final(self)@ == insert_all(old(self)@, pairs@),
    {
        proof {
            use_type_invariant(&*self);
            lemma_put_all(self.entries@, pairs@);
        }
        let ghost before = self.entries@;
        let ghost all = pairs@;
        for pair in it: pairs
            invariant
                it.seq() == all,
                self.entries@ == put_all(before, all.take(it.index() as int)),
        {
            proof {
                let done = it.index() as int;
                assert(all.take(done + 1).drop_last() == all.take(done));
                assert(all.take(done + 1).last() == pair);
            }
            self.insert(pair.0, pair.1);
        }
        assert(all.take(all.len() as int) == all);
    }

    /// The container that holds the pairs of a list: each pair is registered
    /// in turn, so of two pairs with the same id the later one stays.
    pub fn from_pairs(pairs: Vec<(StateID, S)>) -> (made: Self)
        ensures
            made.entries() == put_all(Seq::<(StateID, S)>::empty(), pairs@),
            made@ == insert_all(Map::<Seq<char>, S>::empty(), pairs@),
    {
        let mut made = StateContainer::new();
        made.extend(pairs);
        made
    }

    /// The list of the pairs that the container holds, in the order in which
    /// their ids were first registered.
    pub fn into_pairs(self) -> (pairs: Vec<(StateID, S)>)
        ensures
            pairs@ == self.entries(),
            distinct_ids(pairs@),
    {
        proof {
            use_type_invariant(&self);
        }
        self.entries
    }

    /// The pairs that the container holds, in the order in which their ids
    /// were first registered.
    pub fn pairs(&self) -> (pairs: &Vec<(StateID, S)>)
        ensures
            pairs@ == self.entries(),
            distinct_ids(pairs@),
    {
        proof {
            use_type_invariant(self);
        }
        &self.entries
    }
}

impl<S: Clone> Clone for StateContainer<S> {
    /// A container with the same ids in the same order, each with a clone of
    /// its state.
    fn clone(&self) -> (copy: Self)
        ensures
            copy.entries().len() == self.entries().len(),
            forall|i: int|
                0 <= i < self.entries().len() ==> (#[trigger] copy.entries()[i]).0
                    == self.entries()[i].0 && cloned(self.entries()[i].1, copy.entries()[i].1),
    {
        proof {
            use_type_invariant(self);
        }
        let mut entries: Vec<(StateID, S)> = Vec::new();
        let mut at: usize = 0;
        while at < self.entries.len()
            invariant
                at <= self.entries@.len(),
                entries@.len() == at,
                forall|i: int|
                    0 <= i < at ==> (#[trigger] entries@[i]).0 == self.entries@[i].0 && cloned(
                        self.entries@[i].1,
                        entries@[i].1,
                    ),
            decreases self.entries@.len() - at,
        {
            let id = self.entries[at].0.clone();
            let state = self.entries[at].1.clone();
            entries.push((id, state));
            at += 1;
        }
        assert forall|i: int, j: int| 0 <= i < j < entries@.len() implies (#[trigger] entries@[i]).0@
            != (#[trigger] entries@[j]).0@ by {
            assert(self.entries@[i].0@ != self.entries@[j].0@);
        }
        StateContainer { entries }
    }
}

} // verus!
