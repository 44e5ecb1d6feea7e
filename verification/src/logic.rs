//! Match coordinator: the single authoritative owner of the lobby, the
//! session table, and per-player liveness bookkeeping.
//!
//! The coordinator decides; the surrounding application performs. It is
//! driven with decoded messages and plain timestamps, and answers with
//! plain values the application turns into packets, physics-world
//! creations, and socket writes.

use vstd::prelude::*;
use crate::rng::random_u64;

verus! {

/// How long a player's last ping keeps snapshots flowing, in milliseconds.
pub const PING_WINDOW_MS: u64 = 5000;

/// One active board and its two member player ids; the first member is the
/// player who was waiting in the lobby when the board formed.
#[derive(Debug, PartialEq, Eq, Structural, Clone, Copy)]
pub struct BoardEntry {
    pub board_id: u64,
    pub player1: u64,
    pub player2: u64,
}

/// The last time a player was heard from, in the application's clock.
#[derive(Debug, PartialEq, Eq, Structural, Clone, Copy)]
pub struct PingEntry {
    pub player_id: u64,
    pub last_ms: u64,
}

/// The first board entry carrying the given id, if any.
pub open spec fn spec_lookup_board(s: Seq<BoardEntry>, board_id: u64) -> Option<BoardEntry>
    decreases s.len(),
{
    if s.len() == 0 {
        None
    } else if s[0].board_id == board_id {
        Some(s[0])
    } else {
        spec_lookup_board(s.subrange(1, s.len() as int), board_id)
    }
}

/// The last time the given player pinged, if it ever did.
pub open spec fn spec_lookup_ping(s: Seq<PingEntry>, player_id: u64) -> Option<u64>
    decreases s.len(),
{
    if s.len() == 0 {
        None
    } else if s[0].player_id == player_id {
        Some(s[0].last_ms)
    } else {
        spec_lookup_ping(s.subrange(1, s.len() as int), player_id)
    }
}

/// A sequence whose prefix holds no entry for an id looks up, from the
/// match at the prefix's end, to exactly that match.
proof fn lemma_board_lookup_first_match(s: Seq<BoardEntry>, i: int)
    requires
        0 <= i < s.len(),
        forall|j: int| 0 <= j < i ==> (#[trigger] s[j]).board_id != s[i].board_id,
    ensures
        spec_lookup_board(s, s[i].board_id) == Some(s[i]),
    decreases i,
{
    if i > 0 {
        let rest = s.subrange(1, s.len() as int);
        assert forall|j: int| 0 <= j < i - 1 implies (#[trigger] rest[j]).board_id != rest[i
            - 1].board_id by {
            assert(rest[j] == s[j + 1]);
        }
        lemma_board_lookup_first_match(rest, i - 1);
    }
}

/// A sequence with no entry for an id looks that id up to nothing.
proof fn lemma_board_lookup_absent(s: Seq<BoardEntry>, board_id: u64)
    requires
        forall|j: int| 0 <= j < s.len() ==> (#[trigger] s[j]).board_id != board_id,
    ensures
        spec_lookup_board(s, board_id) is None,
    decreases s.len(),
{
    if s.len() > 0 {
        lemma_board_lookup_absent(s.subrange(1, s.len() as int), board_id);
    }
}

/// Replacing the entry at a position with one of the same id changes the
/// lookup of that id alone, and only if no earlier entry shadows it.
proof fn lemma_board_lookup_update(s: Seq<BoardEntry>, i: int, e: BoardEntry, q: u64)
    requires
        0 <= i < s.len(),
        s[i].board_id == e.board_id,
        forall|j: int| 0 <= j < i ==> (#[trigger] s[j]).board_id != e.board_id,
    ensures
        q == e.board_id ==> spec_lookup_board(s.update(i, e), q) == Some(e),
        q != e.board_id ==> spec_lookup_board(s.update(i, e), q) == spec_lookup_board(s, q),
    decreases i,
{
    let t = s.update(i, e);
    if i == 0 {
        if q != e.board_id {
            assert(t.subrange(1, t.len() as int) =~= s.subrange(1, s.len() as int));
        }
    } else {
        let srest = s.subrange(1, s.len() as int);
        assert(t.subrange(1, t.len() as int) =~= srest.update(i - 1, e));
        assert forall|j: int| 0 <= j < i - 1 implies (#[trigger] srest[j]).board_id
            != e.board_id by {
            assert(srest[j] == s[j + 1]);
        }
        lemma_board_lookup_update(srest, i - 1, e, q);
    }
}

/// Appending an entry for an id the sequence does not hold changes the
/// lookup of that id alone.
proof fn lemma_board_lookup_push(s: Seq<BoardEntry>, e: BoardEntry, q: u64)
    requires
        spec_lookup_board(s, e.board_id) is None,
    ensures
        q == e.board_id ==> spec_lookup_board(s.push(e), q) == Some(e),
        q != e.board_id ==> spec_lookup_board(s.push(e), q) == spec_lookup_board(s, q),
    decreases s.len(),
{
    let t = s.push(e);
    assert(t[0] == if s.len() == 0 {
        e
    } else {
        s[0]
    });
    if s.len() == 0 {
        if q != e.board_id {
            assert(t.subrange(1, t.len() as int) =~= Seq::<BoardEntry>::empty());
            assert(spec_lookup_board(Seq::<BoardEntry>::empty(), q) is None);
        }
    } else {
        assert(t.subrange(1, t.len() as int) =~= s.subrange(1, s.len() as int).push(e));
        lemma_board_lookup_push(s.subrange(1, s.len() as int), e, q);
    }
}

/// As `lemma_board_lookup_first_match`, for the liveness table.
proof fn lemma_ping_lookup_first_match(s: Seq<PingEntry>, i: int)
    requires
        0 <= i < s.len(),
        forall|j: int| 0 <= j < i ==> (#[trigger] s[j]).player_id != s[i].player_id,
    ensures
        spec_lookup_ping(s, s[i].player_id) == Some(s[i].last_ms),
    decreases i,
{
    if i > 0 {
        let rest = s.subrange(1, s.len() as int);
        assert forall|j: int| 0 <= j < i - 1 implies (#[trigger] rest[j]).player_id != rest[i
            - 1].player_id by {
            assert(rest[j] == s[j + 1]);
        }
        lemma_ping_lookup_first_match(rest, i - 1);
    }
}

/// As `lemma_board_lookup_absent`, for the liveness table.
proof fn lemma_ping_lookup_absent(s: Seq<PingEntry>, player_id: u64)
    requires
        forall|j: int| 0 <= j < s.len() ==> (#[trigger] s[j]).player_id != player_id,
    ensures
        spec_lookup_ping(s, player_id) is None,
    decreases s.len(),
{
    if s.len() > 0 {
        lemma_ping_lookup_absent(s.subrange(1, s.len() as int), player_id);
    }
}

/// As `lemma_board_lookup_update`, for the liveness table.
proof fn lemma_ping_lookup_update(s: Seq<PingEntry>, i: int, e: PingEntry, q: u64)
    requires
        0 <= i < s.len(),
        s[i].player_id == e.player_id,
        forall|j: int| 0 <= j < i ==> (#[trigger] s[j]).player_id != e.player_id,
    ensures
        q == e.player_id ==> spec_lookup_ping(s.update(i, e), q) == Some(e.last_ms),
        q != e.player_id ==> spec_lookup_ping(s.update(i, e), q) == spec_lookup_ping(s, q),
    decreases i,
{
    let t = s.update(i, e);
    if i == 0 {
        if q != e.player_id {
            assert(t.subrange(1, t.len() as int) =~= s.subrange(1, s.len() as int));
        }
    } else {
        let srest = s.subrange(1, s.len() as int);
        assert(t.subrange(1, t.len() as int) =~= srest.update(i - 1, e));
        assert forall|j: int| 0 <= j < i - 1 implies (#[trigger] srest[j]).player_id
            != e.player_id by {
            assert(srest[j] == s[j + 1]);
        }
        lemma_ping_lookup_update(srest, i - 1, e, q);
    }
}

/// As `lemma_board_lookup_push`, for the liveness table.
proof fn lemma_ping_lookup_push(s: Seq<PingEntry>, e: PingEntry, q: u64)
    requires
        spec_lookup_ping(s, e.player_id) is None,
    ensures
        q == e.player_id ==> spec_lookup_ping(s.push(e), q) == Some(e.last_ms),
        q != e.player_id ==> spec_lookup_ping(s.push(e), q) == spec_lookup_ping(s, q),
    decreases s.len(),
{
    let t = s.push(e);
    assert(t[0] == if s.len() == 0 {
        e
    } else {
        s[0]
    });
    if s.len() == 0 {
        if q != e.player_id {
            assert(t.subrange(1, t.len() as int) =~= Seq::<PingEntry>::empty());
            assert(spec_lookup_ping(Seq::<PingEntry>::empty(), q) is None);
        }
    } else {
        assert(t.subrange(1, t.len() as int) =~= s.subrange(1, s.len() as int).push(e));
        lemma_ping_lookup_push(s.subrange(1, s.len() as int), e, q);
    }
}

/// Every board id appears at most once in the session table.
pub open spec fn boards_unique(s: Seq<BoardEntry>) -> bool {
    forall|i: int, j: int|
        0 <= i < j < s.len() ==> (#[trigger] s[i]).board_id != (#[trigger] s[j]).board_id
}

/// Every player appears at most once in the liveness table.
pub open spec fn pings_unique(s: Seq<PingEntry>) -> bool {
    forall|i: int, j: int|
        0 <= i < j < s.len() ==> (#[trigger] s[i]).player_id != (#[trigger] s[j]).player_id
}

/// An id that looks up to nothing appears nowhere.
proof fn lemma_board_absent_of_lookup_none(s: Seq<BoardEntry>, board_id: u64)
    requires
        spec_lookup_board(s, board_id) is None,
    ensures
        forall|j: int| 0 <= j < s.len() ==> (#[trigger] s[j]).board_id != board_id,
    decreases s.len(),
{
    if s.len() > 0 {
        let rest = s.subrange(1, s.len() as int);
        lemma_board_absent_of_lookup_none(rest, board_id);
        assert forall|j: int| 0 <= j < s.len() implies (#[trigger] s[j]).board_id != board_id by {
            if j > 0 {
                assert(s[j] == rest[j - 1]);
            }
        }
    }
}

/// As `lemma_board_absent_of_lookup_none`, for the liveness table.
proof fn lemma_ping_absent_of_lookup_none(s: Seq<PingEntry>, player_id: u64)
    requires
        spec_lookup_ping(s, player_id) is None,
    ensures
        forall|j: int| 0 <= j < s.len() ==> (#[trigger] s[j]).player_id != player_id,
    decreases s.len(),
{
    if s.len() > 0 {
        let rest = s.subrange(1, s.len() as int);
        lemma_ping_absent_of_lookup_none(rest, player_id);
        assert forall|j: int| 0 <= j < s.len() implies (#[trigger] s[j]).player_id != player_id by {
            if j > 0 {
                assert(s[j] == rest[j - 1]);
            }
        }
    }
}

/// Removing the only entry for an id empties that id's lookup and leaves
/// every other id's lookup as it was.
proof fn lemma_board_lookup_remove(s: Seq<BoardEntry>, i: int, q: u64)
    requires
        0 <= i < s.len(),
        forall|j: int| 0 <= j < i ==> (#[trigger] s[j]).board_id != s[i].board_id,
        forall|j: int| i < j < s.len() ==> (#[trigger] s[j]).board_id != s[i].board_id,
    ensures
        q == s[i].board_id ==> spec_lookup_board(s.remove(i), q) is None,
        q != s[i].board_id ==> spec_lookup_board(s.remove(i), q) == spec_lookup_board(s, q),
    decreases i,
{
    let t = s.remove(i);
    if i == 0 {
        assert(t =~= s.subrange(1, s.len() as int));
        if q == s[i].board_id {
            assert forall|j: int| 0 <= j < t.len() implies (#[trigger] t[j]).board_id != q by {
                assert(t[j] == s[j + 1]);
            }
            lemma_board_lookup_absent(t, q);
        }
    } else {
        let srest = s.subrange(1, s.len() as int);
        assert(t[0] == s[0]);
        assert(t.len() == s.len() - 1);
        assert(t.subrange(1, t.len() as int) =~= srest.remove(i - 1));
        assert forall|j: int| 0 <= j < i - 1 implies (#[trigger] srest[j]).board_id != srest[i
            - 1].board_id by {
            assert(srest[j] == s[j + 1]);
        }
        assert forall|j: int| i - 1 < j < srest.len() implies (#[trigger] srest[j]).board_id
            != srest[i - 1].board_id by {
            assert(srest[j] == s[j + 1]);
        }
        lemma_board_lookup_remove(srest, i - 1, q);
    }
}

/// Find the position of a board's entry.
fn find_board_index(boards: &Vec<BoardEntry>, board_id: u64) -> (r: Option<usize>)
    ensures
        match r {
            Some(i) => {
                &&& i < boards@.len()
                &&& boards@[i as int].board_id == board_id
                &&& forall|j: int| 0 <= j < i ==> (#[trigger] boards@[j]).board_id != board_id
                &&& spec_lookup_board(boards@, board_id) == Some(boards@[i as int])
            },
            None => spec_lookup_board(boards@, board_id) is None,
        },
{
    let n = boards.len();
    let mut i: usize = 0;
    while i < n
        invariant
            i <= n,
            n == boards@.len(),
            forall|j: int| 0 <= j < i ==> (#[trigger] boards@[j]).board_id != board_id,
        decreases n - i,
    {
        if boards[i].board_id == board_id {
            proof {
                lemma_board_lookup_first_match(boards@, i as int);
            }
            return Some(i);
        }
        i = i + 1;
    }
    proof {
        lemma_board_lookup_absent(boards@, board_id);
    }
    None
}

/// Insert or replace a board's entry, leaving every other board's lookup
/// as it was and keeping board ids unique.
fn upsert_board(boards: &mut Vec<BoardEntry>, e: BoardEntry)
    ensures
        forall|q: u64| #[trigger]
            spec_lookup_board(final(boards)@, q) == if q == e.board_id {
                Some(e)
            } else {
                spec_lookup_board(old(boards)@, q)
            },
        boards_unique(old(boards)@) ==> boards_unique(final(boards)@),
{
    let r = find_board_index(boards, e.board_id);
    match r {
        Some(i) => {
            boards.set(i, e);
            proof {
                if boards_unique(old(boards)@) {
                    assert forall|a: int, b: int|
                        0 <= a < b < boards@.len() implies (#[trigger] boards@[a]).board_id != (
                    #[trigger] boards@[b]).board_id by {
                        assert(old(boards)@[a].board_id != old(boards)@[b].board_id);
                    }
                }
                assert forall|q: u64| #[trigger]
                    spec_lookup_board(boards@, q) == if q == e.board_id {
                        Some(e)
                    } else {
                        spec_lookup_board(old(boards)@, q)
                    } by {
                    lemma_board_lookup_update(old(boards)@, i as int, e, q);
                }
            }
        },
        None => {
            boards.push(e);
            proof {
                if boards_unique(old(boards)@) {
                    lemma_board_absent_of_lookup_none(old(boards)@, e.board_id);
                    assert forall|a: int, b: int|
                        0 <= a < b < boards@.len() implies (#[trigger] boards@[a]).board_id != (
                    #[trigger] boards@[b]).board_id by {
                        if b < boards@.len() - 1 {
                            assert(old(boards)@[a].board_id != old(boards)@[b].board_id);
                        } else {
                            assert(boards@[b] == e);
                            assert(old(boards)@[a].board_id != e.board_id);
                        }
                    }
                }
                assert forall|q: u64| #[trigger]
                    spec_lookup_board(boards@, q) == if q == e.board_id {
                        Some(e)
                    } else {
                        spec_lookup_board(old(boards)@, q)
                    } by {
                    lemma_board_lookup_push(old(boards)@, e, q);
                }
            }
        },
    }
}

/// Find the position of a player's liveness entry.
fn find_ping_index(pings: &Vec<PingEntry>, player_id: u64) -> (r: Option<usize>)
    ensures
        match r {
            Some(i) => {
                &&& i < pings@.len()
                &&& pings@[i as int].player_id == player_id
                &&& forall|j: int| 0 <= j < i ==> (#[trigger] pings@[j]).player_id != player_id
                &&& spec_lookup_ping(pings@, player_id) == Some(pings@[i as int].last_ms)
            },
            None => spec_lookup_ping(pings@, player_id) is None,
        },
{
    let n = pings.len();
    let mut i: usize = 0;
    while i < n
        invariant
            i <= n,
            n == pings@.len(),
            forall|j: int| 0 <= j < i ==> (#[trigger] pings@[j]).player_id != player_id,
        decreases n - i,
    {
        if pings[i].player_id == player_id {
            proof {
                lemma_ping_lookup_first_match(pings@, i as int);
            }
            return Some(i);
        }
        i = i + 1;
    }
    proof {
        lemma_ping_lookup_absent(pings@, player_id);
    }
    None
}

/// Insert or refresh a player's liveness entry, leaving every other
/// player's lookup as it was and keeping players unique.
fn upsert_ping(pings: &mut Vec<PingEntry>, player_id: u64, now_ms: u64)
    ensures
        forall|q: u64| #[trigger]
            spec_lookup_ping(final(pings)@, q) == if q == player_id {
                Some(now_ms)
            } else {
                spec_lookup_ping(old(pings)@, q)
            },
        pings_unique(old(pings)@) ==> pings_unique(final(pings)@),
{
    let e = PingEntry { player_id, last_ms: now_ms };
    let r = find_ping_index(pings, player_id);
    match r {
        Some(i) => {
            pings.set(i, e);
            proof {
                if pings_unique(old(pings)@) {
                    assert forall|a: int, b: int|
                        0 <= a < b < pings@.len() implies (#[trigger] pings@[a]).player_id != (
                    #[trigger] pings@[b]).player_id by {
                        assert(old(pings)@[a].player_id != old(pings)@[b].player_id);
                    }
                }
                assert forall|q: u64| #[trigger]
                    spec_lookup_ping(pings@, q) == if q == player_id {
                        Some(now_ms)
                    } else {
                        spec_lookup_ping(old(pings)@, q)
                    } by {
                    lemma_ping_lookup_update(old(pings)@, i as int, e, q);
                }
            }
        },
        None => {
            pings.push(e);
            proof {
                if pings_unique(old(pings)@) {
                    lemma_ping_absent_of_lookup_none(old(pings)@, e.player_id);
                    assert forall|a: int, b: int|
                        0 <= a < b < pings@.len() implies (#[trigger] pings@[a]).player_id != (
                    #[trigger] pings@[b]).player_id by {
                        if b < pings@.len() - 1 {
                            assert(old(pings)@[a].player_id != old(pings)@[b].player_id);
                        } else {
                            assert(pings@[b] == e);
                            assert(old(pings)@[a].player_id != e.player_id);
                        }
                    }
                }
                assert forall|q: u64| #[trigger]
                    spec_lookup_ping(pings@, q) == if q == player_id {
                        Some(now_ms)
                    } else {
                        spec_lookup_ping(old(pings)@, q)
                    } by {
                    lemma_ping_lookup_push(old(pings)@, e, q);
                }
            }
        },
    }
}

/// Whether the given player is a member of the given board.
pub open spec fn spec_is_member(boards: Seq<BoardEntry>, player_id: u64, board_id: u64) -> bool {
    match spec_lookup_board(boards, board_id) {
        Some(e) => player_id == e.player1 || player_id == e.player2,
        None => false,
    }
}

/// The coordinator's answer to a join request: the requester's assigned
/// player id, the board id the requester now belongs to (or waits in), and
/// the waiting opponent's id when the request formed a board.
#[derive(Debug, PartialEq, Eq, Structural, Clone, Copy)]
pub struct JoinReply {
    pub player_id: u64,
    pub board_id: u64,
    pub opponent: Option<u64>,
}

/// The coordinator's whole state: the single-slot lobby (waiting player id
/// and the board id minted for it), the session table, the liveness table,
/// and the round-robin queue of boards awaiting a simulation step.
pub struct Coordinator {
    pub lobby: Option<(u64, u64)>,
    pub boards: Vec<BoardEntry>,
    pub pings: Vec<PingEntry>,
    pub queue: Vec<u64>,
}

impl Coordinator {
    /// Well-formedness: each session id stands for one session, and each
    /// player has at most one liveness entry.
    pub open spec fn inv(self) -> bool {
        boards_unique(self.boards@) && pings_unique(self.pings@)
    }

    /// An empty coordinator: nobody waiting, no boards, no liveness data.
    pub fn new() -> (r: Coordinator)
        ensures
            r.lobby is None,
            r.boards@.len() == 0,
            r.pings@.len() == 0,
            r.queue@.len() == 0,
            r.inv(),
    {
        Coordinator { lobby: None, boards: Vec::new(), pings: Vec::new(), queue: Vec::new() }
    }

    /// Handle a join request given the freshly minted ids.
    ///
    /// With nobody waiting, the requester becomes the waiting player under
    /// the fresh board id and nothing else changes. With a player waiting,
    /// the waiting board id is kept: a board forms whose members are
    /// exactly the waiting player and the requester, the lobby clears,
    /// both members' liveness starts now, and the board joins the update
    /// queue.
    pub fn join_with_ids(&mut self, fresh_player_id: u64, fresh_board_id: u64, now_ms: u64) -> (r:
        JoinReply)
        requires
            old(self).inv(),
        ensures
            final(self).inv(),
            old(self).lobby is None ==> {
                &&& final(self).lobby == Some((fresh_player_id, fresh_board_id))
                &&& r == (JoinReply {
                    player_id: fresh_player_id,
                    board_id: fresh_board_id,
                    opponent: None,
                })
                &&& final(self).boards@ == old(self).boards@
                &&& final(self).pings@ == old(self).pings@
                &&& final(self).queue@ == old(self).queue@
            },
            old(self).lobby matches Some((w, b)) ==> {
                &&& r == (JoinReply { player_id: fresh_player_id, board_id: b, opponent: Some(w) })
                &&& final(self).lobby is None
                &&& forall|q: u64| #[trigger]
                    spec_lookup_board(final(self).boards@, q) == if q == b {
                        Some(BoardEntry { board_id: b, player1: w, player2: fresh_player_id })
                    } else {
                        spec_lookup_board(old(self).boards@, q)
                    }
                &&& forall|q: u64| #[trigger]
                    spec_lookup_ping(final(self).pings@, q) == if q == w || q == fresh_player_id {
                        Some(now_ms)
                    } else {
                        spec_lookup_ping(old(self).pings@, q)
                    }
                &&& final(self).queue@ == old(self).queue@.push(b)
            },
    {
        let lobby = self.lobby;
        match lobby {
            None => {
                self.lobby = Some((fresh_player_id, fresh_board_id));
                JoinReply { player_id: fresh_player_id, board_id: fresh_board_id, opponent: None }
            },
            Some((w, b)) => {
                self.lobby = None;
                upsert_board(
                    &mut self.boards,
                    BoardEntry { board_id: b, player1: w, player2: fresh_player_id },
                );
                upsert_ping(&mut self.pings, w, now_ms);
                upsert_ping(&mut self.pings, fresh_player_id, now_ms);
                self.queue.push(b);
                JoinReply { player_id: fresh_player_id, board_id: b, opponent: Some(w) }
            },
        }
    }

    /// Handle a join request, minting the requester's player id (and, with
    /// nobody waiting, a board id) at random.
    pub fn join_request(&mut self, now_ms: u64) -> (r: JoinReply)
        requires
            old(self).inv(),
        ensures
            final(self).inv(),
            old(self).lobby is None ==> {
                &&& final(self).lobby == Some((r.player_id, r.board_id))
                &&& r.opponent is None
                &&& final(self).boards@ == old(self).boards@
                &&& final(self).pings@ == old(self).pings@
                &&& final(self).queue@ == old(self).queue@
            },
            old(self).lobby matches Some((w, b)) ==> {
                &&& r.board_id == b
                &&& r.opponent == Some(w)
                &&& final(self).lobby is None
                &&& forall|q: u64| #[trigger]
                    spec_lookup_board(final(self).boards@, q) == if q == b {
                        Some(BoardEntry { board_id: b, player1: w, player2: r.player_id })
                    } else {
                        spec_lookup_board(old(self).boards@, q)
                    }
                &&& forall|q: u64| #[trigger]
                    spec_lookup_ping(final(self).pings@, q) == if q == w || q == r.player_id {
                        Some(now_ms)
                    } else {
                        spec_lookup_ping(old(self).pings@, q)
                    }
                &&& final(self).queue@ == old(self).queue@.push(b)
            },
    {
        let fresh_player_id = random_u64();
        let fresh_board_id = random_u64();
        self.join_with_ids(fresh_player_id, fresh_board_id, now_ms)
    }

    /// Route a key input: answer which member slot the player holds in the
    /// board (`true` = first member), or nothing when the board is unknown
    /// or the player is no member of it, in which case the input must be
    /// ignored.
    pub fn route_input(&self, player_id: u64, board_id: u64) -> (r: Option<bool>)
        ensures
            match spec_lookup_board(self.boards@, board_id) {
                None => r is None,
                Some(e) => r == if player_id == e.player1 {
                    Some(true)
                } else if player_id == e.player2 {
                    Some(false)
                } else {
                    None::<bool>
                },
            },
    {
        match find_board_index(&self.boards, board_id) {
            None => None,
            Some(i) => {
                let e = self.boards[i];
                if player_id == e.player1 {
                    Some(true)
                } else if player_id == e.player2 {
                    Some(false)
                } else {
                    None
                }
            },
        }
    }

    /// Refresh a player's liveness from a ping, but only when the ping
    /// names a known board the player belongs to.
    pub fn ping(&mut self, player_id: u64, board_id: u64, now_ms: u64)
        requires
            old(self).inv(),
        ensures
            final(self).inv(),
            final(self).lobby == old(self).lobby,
            final(self).boards@ == old(self).boards@,
            final(self).queue@ == old(self).queue@,
            spec_is_member(old(self).boards@, player_id, board_id) ==> forall|q: u64| #[trigger]
                spec_lookup_ping(final(self).pings@, q) == if q == player_id {
                    Some(now_ms)
                } else {
                    spec_lookup_ping(old(self).pings@, q)
                },
            !spec_is_member(old(self).boards@, player_id, board_id) ==> final(self).pings@ == old(
                self,
            ).pings@,
    {
        let member = match find_board_index(&self.boards, board_id) {
            None => false,
            Some(i) => {
                let e = self.boards[i];
                player_id == e.player1 || player_id == e.player2
            },
        };
        if member {
            upsert_ping(&mut self.pings, player_id, now_ms);
        }
    }

    /// Whether a player still receives snapshots: it does exactly while its
    /// last ping lies within the liveness window.
    pub fn should_notify(&self, player_id: u64, now_ms: u64) -> (r: bool)
        ensures
            r == match spec_lookup_ping(self.pings@, player_id) {
                Some(t) => now_ms < t + PING_WINDOW_MS,
                None => false,
            },
    {
        match find_ping_index(&self.pings, player_id) {
            None => false,
            Some(i) => {
                let t = self.pings[i].last_ms;
                if t >= now_ms {
                    true
                } else {
                    now_ms - t < PING_WINDOW_MS
                }
            },
        }
    }

    /// Take the next board awaiting a simulation step off the front of the
    /// update queue.
    pub fn pop_board(&mut self) -> (r: Option<u64>)
        ensures
            final(self).lobby == old(self).lobby,
            final(self).boards@ == old(self).boards@,
            final(self).pings@ == old(self).pings@,
            old(self).queue@.len() == 0 ==> r is None && final(self).queue@ == old(self).queue@,
            old(self).queue@.len() > 0 ==> r == Some(old(self).queue@[0]) && final(self).queue@
                == old(self).queue@.subrange(1, old(self).queue@.len() as int),
    {
        if self.queue.len() == 0 {
            None
        } else {
            let id = self.queue.remove(0);
            proof {
                assert(self.queue@ =~= old(self).queue@.subrange(1, old(self).queue@.len() as int));
            }
            Some(id)
        }
    }

    /// Put a board back at the end of the update queue.
    pub fn push_board(&mut self, board_id: u64)
        ensures
            final(self).lobby == old(self).lobby,
            final(self).boards@ == old(self).boards@,
            final(self).pings@ == old(self).pings@,
            final(self).queue@ == old(self).queue@.push(board_id),
    {
        self.queue.push(board_id);
    }

    /// Note a player's departure: if the departing player is the one
    /// waiting in the lobby, the lobby clears; everything else the
    /// coordinator owns stands (the address table and control channels are
    /// the transport's to tear down).
    pub fn disconnect(&mut self, player_id: u64)
        ensures
            final(self).lobby == match old(self).lobby {
                Some((w, b)) => if w == player_id {
                    None
                } else {
                    Some((w, b))
                },
                None => None,
            },
            final(self).boards@ == old(self).boards@,
            final(self).pings@ == old(self).pings@,
            final(self).queue@ == old(self).queue@,
    {
        if let Some((w, _)) = self.lobby {
            if w == player_id {
                self.lobby = None;
            }
        }
    }

    /// Discard a session outright, once neither member keeps a live
    /// control connection. A stale update-queue entry for it then pops to
    /// an unknown board, which the tick handler already skips.
    pub fn remove_board(&mut self, board_id: u64)
        requires
            old(self).inv(),
        ensures
            final(self).inv(),
            final(self).lobby == old(self).lobby,
            final(self).pings@ == old(self).pings@,
            final(self).queue@ == old(self).queue@,
            spec_lookup_board(final(self).boards@, board_id) is None,
            forall|q: u64|
                q != board_id ==> #[trigger] spec_lookup_board(final(self).boards@, q)
                    == spec_lookup_board(old(self).boards@, q),
    {
        match find_board_index(&self.boards, board_id) {
            None => {},
            Some(i) => {
                self.boards.remove(i);
                proof {
                    let prev = old(self).boards@;
                    assert forall|j: int|
                        i < j < prev.len() implies (#[trigger] prev[j]).board_id != prev[
                        i as int].board_id by {}
                    assert forall|q: u64|
                        spec_lookup_board(self.boards@, q) == if q == board_id {
                            None::<BoardEntry>
                        } else {
                            spec_lookup_board(prev, q)
                        } by {
                        lemma_board_lookup_remove(prev, i as int, q);
                    }
                    assert forall|a: int, b: int|
                        0 <= a < b < self.boards@.len() implies (#[trigger] self.boards@[a]).board_id
                        != (#[trigger] self.boards@[b]).board_id by {
                        let oa: int = if a < i {
                            a
                        } else {
                            a + 1
                        };
                        let ob: int = if b < i {
                            b
                        } else {
                            b + 1
                        };
                        assert(self.boards@[a] == prev[oa]);
                        assert(self.boards@[b] == prev[ob]);
                        assert(prev[oa].board_id != prev[ob].board_id);
                    }
                }
            },
        }
    }

    /// The two member player ids of a board, if the board exists.
    pub fn board_members(&self, board_id: u64) -> (r: Option<(u64, u64)>)
        ensures
            match spec_lookup_board(self.boards@, board_id) {
                None => r is None,
                Some(e) => r == Some((e.player1, e.player2)),
            },
    {
        match find_board_index(&self.boards, board_id) {
            None => None,
            Some(i) => {
                let e = self.boards[i];
                Some((e.player1, e.player2))
            },
        }
    }
}

} // verus!
