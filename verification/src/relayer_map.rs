//! The staked relayers of a contract, in the order in which they are listed.

use vstd::prelude::*;

verus! {

/// What is kept of one relayer: its stake in yoctoNEAR, and the block time in nanoseconds
/// from which it is active.
#[derive(Clone, Copy, Debug, PartialEq, Eq, Structural)]
pub struct RelayerState {
    pub stake: u128,
    pub activate_at: u64,
}

impl RelayerState {
    /// A relayer is active from its activation time on.
    pub open spec fn active(self, now: u64) -> bool {
        now >= self.activate_at
    }

    /// Whether the relayer is active at block time `now`.
    pub fn is_active(&self, now: u64) -> (active: bool)
        ensures
            active == self.active(now),
    {
        now >= self.activate_at
    }
}

/// The listed relayers as values: each account with its state.
pub type Entries = Seq<(Seq<char>, RelayerState)>;

/// Whether the account is listed.
pub open spec fn listed(entries: Entries, account: Seq<char>) -> bool {
    exists|i: int| 0 <= i < entries.len() && #[trigger] entries[i].0 == account
}

/// Where a listed account stands.
pub open spec fn position(entries: Entries, account: Seq<char>) -> int {
    choose|i: int| 0 <= i < entries.len() && #[trigger] entries[i].0 == account
}

/// The state of an account, where it is listed.
pub open spec fn state_of(entries: Entries, account: Seq<char>) -> Option<RelayerState> {
    if listed(entries, account) {
        Some(entries[position(entries, account)].1)
    } else {
        None
    }
}

/// No account is listed twice.
pub open spec fn distinct(entries: Entries) -> bool {
    forall|i: int, j: int|
        0 <= i < entries.len() && 0 <= j < entries.len() && #[trigger] entries[i].0
            == #[trigger] entries[j].0 ==> i == j
}

/// The list with the account's state set: in place where the account is listed, at the end
/// where it is not.
pub open spec fn with_state(
    entries: Entries,
    account: Seq<char>,
    state: RelayerState,
) -> Entries {
    if listed(entries, account) {
        entries.update(position(entries, account), (account, state))
    } else {
        entries.push((account, state))
    }
}

/// The list without the account: the last entry takes the place of the one that leaves.
pub open spec fn without(entries: Entries, account: Seq<char>) -> Entries {
    if listed(entries, account) {
        entries.update(position(entries, account), entries.last()).drop_last()
    } else {
        entries
    }
}

/// In a list without duplicates an account stands at one place only.
pub proof fn lemma_position(entries: Entries, i: int)
    requires
        distinct(entries),
        0 <= i < entries.len(),
    ensures
        listed(entries, entries[i].0),
        position(entries, entries[i].0) == i,
        state_of(entries, entries[i].0) == Some(entries[i].1),
{
    let p = position(entries, entries[i].0);
    assert(entries[i].0 == entries[i].0);
    assert(0 <= p < entries.len() && entries[p].0 == entries[i].0);
}

/// The staked relayers of a contract.
///
/// No account is listed twice. An account that joins is listed last; when one leaves, the
/// last account takes its place. The map remembers whether it has been written to since it
/// was loaded, so that a call that only reads leaves the stored copy alone.
pub struct RelayerMap {
    entries: Vec<(String, RelayerState)>,
    modified: bool,
}

/// The accounts of a vector of entries by their characters.
pub open spec fn entries_of(list: Seq<(String, RelayerState)>) -> Entries {
    list.map_values(|e: (String, RelayerState)| (e.0@, e.1))
}

impl View for RelayerMap {
    type V = Entries;

    closed spec fn view(&self) -> Entries {
        entries_of(self.entries@)
    }
}

impl RelayerMap {
    #[verifier::type_invariant]
    spec fn no_duplicates(self) -> bool {
        distinct(self@)
    }

    /// Whether the map has been written to since it was loaded.
    pub closed spec fn modified(self) -> bool {
        self.modified
    }

    /// An empty map.
    pub fn new() -> (map: RelayerMap)
        ensures
            map@ == Seq::<(Seq<char>, RelayerState)>::empty(),
            !map.modified(),
    {
        let map = RelayerMap { entries: Vec::new(), modified: false };
        assert(map@ =~= Seq::<(Seq<char>, RelayerState)>::empty());
        map
    }

    /// A map of the given entries, in their order. There is none where an account occurs twice.
    pub fn load(entries: Vec<(String, RelayerState)>) -> (map: Option<RelayerMap>)
        ensures
            map is Some <==> distinct(entries_of(entries@)),
            map matches Some(m) ==> m@ == entries_of(entries@) && !m.modified(),
    {
        let n: usize = entries.len();
        let ghost list = entries_of(entries@);
        for i in 0..n
            invariant
                n == entries@.len(),
                list == entries_of(entries@),
                distinct(list.take(i as int)),
        {
            for j in 0..i
                invariant
                    i < n == entries@.len(),
                    list == entries_of(entries@),
                    distinct(list.take(i as int)),
                    forall|k: int| 0 <= k < j ==> #[trigger] list[k].0 != list[i as int].0,
            {
                if entries[j].0 == entries[i].0 {
                    assert(list[j as int].0 == list[i as int].0);
                    return None;
                }
            }
            assert forall|a: int, b: int|
                0 <= a < i + 1 && 0 <= b < i + 1 && #[trigger] list.take(i + 1)[a].0
                    == #[trigger] list.take(i + 1)[b].0 implies a == b by {
                if a < i && b < i {
                    assert(list.take(i as int)[a].0 == list.take(i as int)[b].0);
                }
            }
        }
        assert(list.take(n as int) =~= list);
        Some(RelayerMap { entries, modified: false })
    }

    /// How many relayers are listed.
    pub fn len(&self) -> (n: usize)
        ensures
            n == self@.len(),
    {
        self.entries.len()
    }

    /// The listed relayers in their order.
    pub fn entries(&self) -> (entries: &Vec<(String, RelayerState)>)
        ensures
            entries_of(entries@) == self@,
            distinct(self@),
    {
        proof {
            use_type_invariant(&*self);
        }
        &self.entries
    }

    /// Whether the map has been written to since it was loaded, so that it has to be stored.
    pub fn is_modified(&self) -> (modified: bool)
        ensures
            modified == self.modified(),
    {
        self.modified
    }

    /// Where an account stands in the list.
    fn find(&self, account_id: &str) -> (at: Option<usize>)
        ensures
            at is Some <==> listed(self@, account_id@),
            at matches Some(i) ==> i < self@.len() && i == position(self@, account_id@)
                && self@[i as int].0 == account_id@,
    {
        let n: usize = self.entries.len();
        for i in 0..n
            invariant
                n == self.entries@.len(),
                forall|k: int| 0 <= k < i ==> #[trigger] self@[k].0 != account_id@,
        {
            assert(self@[i as int].0 == self.entries@[i as int].0@);
            if *self.entries[i].0.as_str() == *account_id {
                proof {
                    use_type_invariant(&*self);
                    lemma_position(self@, i as int);
                }
                return Some(i);
            }
        }
        None
    }

    /// The state of an account, where it is listed.
    pub fn get(&self, account_id: &str) -> (state: Option<RelayerState>)
        ensures
            state == state_of(self@, account_id@),
    {
        match self.find(account_id) {
            Some(i) => Some(self.entries[i].1),
            None => None,
        }
    }

    /// Sets the state of an account, and gives back the one that it had.
    pub fn insert(&mut self, account_id: String, state: RelayerState) -> (previous: Option<
        RelayerState,
    >)
        ensures
            previous == state_of(old(self)@, account_id@),
            final(self)@ == with_state(old(self)@, account_id@, state),
            final(self).modified(),
    {
        proof {
            use_type_invariant(&*self);
        }
        let at = self.find(account_id.as_str());
        let mut entries: Vec<(String, RelayerState)> = Vec::new();
        let ghost before = self@;
        let ghost name = account_id@;
        std::mem::swap(&mut entries, &mut self.entries);
        assert(entries_of(entries@) == before);
        let previous = match at {
            Some(i) => {
                let held = entries[i].1;
                entries[i] = (account_id, state);
                assert(entries_of(entries@) =~= before.update(i as int, (name, state)));
                Some(held)
            },
            None => {
                entries.push((account_id, state));
                assert(entries_of(entries@) =~= before.push((name, state)));
                None
            },
        };
        proof {
            lemma_with_state(before, name, state);
        }
        assert(entries_of(entries@) == with_state(before, name, state));
        self.entries = entries;
        self.modified = true;
        previous
    }

    /// Takes an account off the list, and gives back the state that it had.
    pub fn remove(&mut self, account_id: &str) -> (state: Option<RelayerState>)
        ensures
            state == state_of(old(self)@, account_id@),
            final(self)@ == without(old(self)@, account_id@),
            final(self).modified(),
    {
        proof {
            use_type_invariant(&*self);
        }
        let at = self.find(account_id);
        let mut entries: Vec<(String, RelayerState)> = Vec::new();
        let ghost before = self@;
        std::mem::swap(&mut entries, &mut self.entries);
        let state = match at {
            Some(i) => {
                let (_, held) = entries.swap_remove(i);
                assert(entries_of(entries@) =~= without(before, account_id@));
                Some(held)
            },
            None => None,
        };
        proof {
            lemma_without(before, account_id@);
        }
        self.entries = entries;
        self.modified = true;
        state
    }
}

/// Setting a state keeps the list free of duplicates, and changes nothing for other accounts.
pub proof fn lemma_with_state(entries: Entries, account: Seq<char>, state: RelayerState)
    requires
        distinct(entries),
    ensures
        distinct(with_state(entries, account, state)),
        state_of(with_state(entries, account, state), account) == Some(state),
        forall|other: Seq<char>|
            other != account ==> #[trigger] state_of(with_state(entries, account, state), other)
                == state_of(entries, other),
{
    let after = with_state(entries, account, state);
    let at = if listed(entries, account) {
        position(entries, account)
    } else {
        entries.len() as int
    };
    assert(after[at] == (account, state));
    assert forall|i: int, j: int|
        0 <= i < after.len() && 0 <= j < after.len() && #[trigger] after[i].0
            == #[trigger] after[j].0 implies i == j by {
        if i < entries.len() {
            assert(after[i].0 == entries[i].0);
        }
        if j < entries.len() {
            assert(after[j].0 == entries[j].0);
        }
    }
    lemma_position(after, at);
    assert forall|other: Seq<char>| other != account implies #[trigger] state_of(after, other)
        == state_of(entries, other) by {
        if listed(entries, other) {
            let p = position(entries, other);
            assert(after[p] == entries[p]);
            lemma_position(after, p);
        } else if listed(after, other) {
            let p = position(after, other);
            assert(p != at);
            assert(entries[p] == after[p]);
        }
    }
}

/// Taking an account off keeps the list free of duplicates, and changes nothing for other
/// accounts.
pub proof fn lemma_without(entries: Entries, account: Seq<char>)
    requires
        distinct(entries),
    ensures
        distinct(without(entries, account)),
        !listed(without(entries, account), account),
        forall|other: Seq<char>|
            other != account ==> #[trigger] state_of(without(entries, account), other) == state_of(
                entries,
                other,
            ),
{
    let after = without(entries, account);
    if listed(entries, account) {
        let at = position(entries, account);
        let last = entries.len() - 1;
        assert forall|i: int| 0 <= i < after.len() implies #[trigger] after[i] == (if i == at {
            entries[last]
        } else {
            entries[i]
        }) by {}
        assert forall|i: int, j: int|
            0 <= i < after.len() && 0 <= j < after.len() && #[trigger] after[i].0
                == #[trigger] after[j].0 implies i == j by {
            let a = if i == at { last } else { i };
            let b = if j == at { last } else { j };
            assert(entries[a].0 == entries[b].0);
        }
        assert forall|i: int| 0 <= i < after.len() implies #[trigger] after[i].0 != account by {
            let a = if i == at { last } else { i };
            assert(entries[a] == after[i]);
        }
        assert forall|other: Seq<char>| other != account implies #[trigger] state_of(after, other)
            == state_of(entries, other) by {
            if listed(entries, other) {
                let p = position(entries, other);
                let q = if p == last { at } else { p };
                assert(after[q] == entries[p]);
                lemma_position(after, q);
            } else if listed(after, other) {
                let q = position(after, other);
                let p = if q == at { last } else { q };
                assert(entries[p] == after[q]);
            }
        }
    }
}

} // verus!
