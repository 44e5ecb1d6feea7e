//! The UDP sender's player-to-address table.
//!
//! One owner holds every outbound write and this table beside it; the
//! address type is whatever the transport uses and is carried through
//! unread.

use vstd::prelude::*;

verus! {

/// The first address recorded for the given player, if any.
pub open spec fn spec_lookup_addr<A>(s: Seq<(u64, A)>, player_id: u64) -> Option<A>
    decreases s.len(),
{
    if s.len() == 0 {
        None
    } else if s[0].0 == player_id {
        Some(s[0].1)
    } else {
        spec_lookup_addr(s.subrange(1, s.len() as int), player_id)
    }
}

proof fn lemma_addr_lookup_first_match<A>(s: Seq<(u64, A)>, i: int)
    requires
        0 <= i < s.len(),
        forall|j: int| 0 <= j < i ==> (#[trigger] s[j]).0 != s[i].0,
    ensures
        spec_lookup_addr(s, s[i].0) == Some(s[i].1),
    decreases i,
{
    if i > 0 {
        let rest = s.subrange(1, s.len() as int);
        assert forall|j: int| 0 <= j < i - 1 implies (#[trigger] rest[j]).0 != rest[i - 1].0 by {
            assert(rest[j] == s[j + 1]);
        }
        lemma_addr_lookup_first_match(rest, i - 1);
    }
}

proof fn lemma_addr_lookup_absent<A>(s: Seq<(u64, A)>, player_id: u64)
    requires
        forall|j: int| 0 <= j < s.len() ==> (#[trigger] s[j]).0 != player_id,
    ensures
        spec_lookup_addr(s, player_id) is None,
    decreases s.len(),
{
    if s.len() > 0 {
        lemma_addr_lookup_absent(s.subrange(1, s.len() as int), player_id);
    }
}

proof fn lemma_addr_lookup_update<A>(s: Seq<(u64, A)>, i: int, e: (u64, A), q: u64)
    requires
        0 <= i < s.len(),
        s[i].0 == e.0,
        forall|j: int| 0 <= j < i ==> (#[trigger] s[j]).0 != e.0,
    ensures
        q == e.0 ==> spec_lookup_addr(s.update(i, e), q) == Some(e.1),
        q != e.0 ==> spec_lookup_addr(s.update(i, e), q) == spec_lookup_addr(s, q),
    decreases i,
{
    let t = s.update(i, e);
    if i == 0 {
        if q != e.0 {
            assert(t.subrange(1, t.len() as int) =~= s.subrange(1, s.len() as int));
        }
    } else {
        let srest = s.subrange(1, s.len() as int);
        assert(t.subrange(1, t.len() as int) =~= srest.update(i - 1, e));
        assert forall|j: int| 0 <= j < i - 1 implies (#[trigger] srest[j]).0 != e.0 by {
            assert(srest[j] == s[j + 1]);
        }
        lemma_addr_lookup_update(srest, i - 1, e, q);
    }
}

proof fn lemma_addr_lookup_push<A>(s: Seq<(u64, A)>, e: (u64, A), q: u64)
    requires
        spec_lookup_addr(s, e.0) is None,
    ensures
        q == e.0 ==> spec_lookup_addr(s.push(e), q) == Some(e.1),
        q != e.0 ==> spec_lookup_addr(s.push(e), q) == spec_lookup_addr(s, q),
    decreases s.len(),
{
    let t = s.push(e);
    assert(t[0] == if s.len() == 0 {
        e
    } else {
        s[0]
    });
    if s.len() == 0 {
        if q != e.0 {
            assert(t.subrange(1, t.len() as int) =~= Seq::<(u64, A)>::empty());
            assert(spec_lookup_addr(Seq::<(u64, A)>::empty(), q) is None);
        }
    } else {
        assert(t.subrange(1, t.len() as int) =~= s.subrange(1, s.len() as int).push(e));
        lemma_addr_lookup_push(s.subrange(1, s.len() as int), e, q);
    }
}

proof fn lemma_addr_lookup_remove<A>(s: Seq<(u64, A)>, i: int, q: u64)
    requires
        0 <= i < s.len(),
        forall|j: int| 0 <= j < i ==> (#[trigger] s[j]).0 != s[i].0,
        forall|j: int| i < j < s.len() ==> (#[trigger] s[j]).0 != s[i].0,
    ensures
        q == s[i].0 ==> spec_lookup_addr(s.remove(i), q) is None,
        q != s[i].0 ==> spec_lookup_addr(s.remove(i), q) == spec_lookup_addr(s, q),
    decreases i,
{
    let t = s.remove(i);
    if i == 0 {
        assert(t =~= s.subrange(1, s.len() as int));
        if q == s[i].0 {
            assert forall|j: int| 0 <= j < t.len() implies (#[trigger] t[j]).0 != q by {
                assert(t[j] == s[j + 1]);
            }
            lemma_addr_lookup_absent(t, q);
        }
    } else {
        let srest = s.subrange(1, s.len() as int);
        assert(t[0] == s[0]);
        assert(t.len() == s.len() - 1);
        assert(t.subrange(1, t.len() as int) =~= srest.remove(i - 1));
        assert forall|j: int| 0 <= j < i - 1 implies (#[trigger] srest[j]).0 != srest[i - 1].0 by {
            assert(srest[j] == s[j + 1]);
        }
        assert forall|j: int| i - 1 < j < srest.len() implies (#[trigger] srest[j]).0 != srest[i
            - 1].0 by {
            assert(srest[j] == s[j + 1]);
        }
        lemma_addr_lookup_remove(srest, i - 1, q);
    }
}

proof fn lemma_addr_absent_of_lookup_none<A>(s: Seq<(u64, A)>, player_id: u64)
    requires
        spec_lookup_addr(s, player_id) is None,
    ensures
        forall|j: int| 0 <= j < s.len() ==> (#[trigger] s[j]).0 != player_id,
    decreases s.len(),
{
    if s.len() > 0 {
        let rest = s.subrange(1, s.len() as int);
        lemma_addr_absent_of_lookup_none(rest, player_id);
        assert forall|j: int| 0 <= j < s.len() implies (#[trigger] s[j]).0 != player_id by {
            if j > 0 {
                assert(s[j] == rest[j - 1]);
            }
        }
    }
}

/// The player-to-address table: one entry per player, most recent address
/// kept.
pub struct AddressBook<A> {
    pub entries: Vec<(u64, A)>,
}

impl<A: Copy> AddressBook<A> {
    /// Every player appears at most once.
    pub open spec fn inv(self) -> bool {
        forall|i: int, j: int|
            0 <= i < j < self.entries@.len() ==> (#[trigger] self.entries@[i]).0 != (
            #[trigger] self.entries@[j]).0
    }

    /// An empty table.
    pub fn new() -> (r: AddressBook<A>)
        ensures
            r.entries@.len() == 0,
            r.inv(),
    {
        AddressBook { entries: Vec::new() }
    }

    /// Find the position of a player's entry.
    fn find_index(&self, player_id: u64) -> (r: Option<usize>)
        ensures
            match r {
                Some(i) => {
                    &&& i < self.entries@.len()
                    &&& self.entries@[i as int].0 == player_id
                    &&& forall|j: int|
                        0 <= j < i ==> (#[trigger] self.entries@[j]).0 != player_id
                    &&& spec_lookup_addr(self.entries@, player_id) == Some(
                        self.entries@[i as int].1,
                    )
                },
                None => spec_lookup_addr(self.entries@, player_id) is None,
            },
    {
        let n = self.entries.len();
        let mut i: usize = 0;
        while i < n
            invariant
                i <= n,
                n == self.entries@.len(),
                forall|j: int| 0 <= j < i ==> (#[trigger] self.entries@[j]).0 != player_id,
            decreases n - i,
        {
            if self.entries[i].0 == player_id {
                proof {
                    lemma_addr_lookup_first_match(self.entries@, i as int);
                }
                return Some(i);
            }
            i = i + 1;
        }
        proof {
            lemma_addr_lookup_absent(self.entries@, player_id);
        }
        None
    }

    /// Register or refresh a player's address.
    pub fn set_address(&mut self, player_id: u64, addr: A)
        requires
            old(self).inv(),
        ensures
            final(self).inv(),
            forall|q: u64| #[trigger]
                spec_lookup_addr(final(self).entries@, q) == if q == player_id {
                    Some(addr)
                } else {
                    spec_lookup_addr(old(self).entries@, q)
                },
    {
        match self.find_index(player_id) {
            Some(i) => {
                self.entries.set(i, (player_id, addr));
                proof {
                    assert forall|q: u64| #[trigger]
                        spec_lookup_addr(self.entries@, q) == if q == player_id {
                            Some(addr)
                        } else {
                            spec_lookup_addr(old(self).entries@, q)
                        } by {
                        lemma_addr_lookup_update(old(self).entries@, i as int, (player_id, addr), q);
                    }
                }
            },
            None => {
                self.entries.push((player_id, addr));
                proof {
                    lemma_addr_absent_of_lookup_none(old(self).entries@, player_id);
                    assert forall|q: u64| #[trigger]
                        spec_lookup_addr(self.entries@, q) == if q == player_id {
                            Some(addr)
                        } else {
                            spec_lookup_addr(old(self).entries@, q)
                        } by {
                        lemma_addr_lookup_push(old(self).entries@, (player_id, addr), q);
                    }
                }
            },
        }
    }

    /// The address a snapshot for this player goes to; nothing when the
    /// player never made contact, in which case the send is skipped.
    pub fn get_address(&self, player_id: u64) -> (r: Option<A>)
        ensures
            r == spec_lookup_addr(self.entries@, player_id),
    {
        match self.find_index(player_id) {
            Some(i) => Some(self.entries[i].1),
            None => None,
        }
    }

    /// Forget a player's address entirely.
    pub fn forget(&mut self, player_id: u64)
        requires
            old(self).inv(),
        ensures
            final(self).inv(),
            spec_lookup_addr(final(self).entries@, player_id) is None,
            forall|q: u64|
                q != player_id ==> #[trigger] spec_lookup_addr(final(self).entries@, q)
                    == spec_lookup_addr(old(self).entries@, q),
    {
        match self.find_index(player_id) {
            Some(i) => {
                self.entries.remove(i);
                proof {
                    assert forall|j: int|
                        i < j < old(self).entries@.len() implies (#[trigger] old(
                        self,
                    ).entries@[j]).0 != old(self).entries@[i as int].0 by {}
                    assert forall|q: u64|
                        spec_lookup_addr(self.entries@, q) == if q == player_id {
                            None::<A>
                        } else {
                            spec_lookup_addr(old(self).entries@, q)
                        } by {
                        lemma_addr_lookup_remove(old(self).entries@, i as int, q);
                    }
                }
            },
            None => {},
        }
    }
}

} // verus!
