//! The match queues: players waiting for a match, first come first served.
use vstd::prelude::*;

use crate::handlers::MessageCommand;
use crate::states::QueueType;

verus! {

/// `s` without the occurrences of `u`, the rest kept in order.
pub open spec fn without(s: Seq<u128>, u: u128) -> Seq<u128>
    decreases s.len(),
{
    if s.len() == 0 {
        s
    } else if s.last() == u {
        without(s.drop_last(), u)
    } else {
        without(s.drop_last(), u).push(s.last())
    }
}

/// A queue of players (by UUID) waiting for a match.
#[derive(Debug, PartialEq)]
pub struct MatchQueue {
    pub players: Vec<u128>,
}

impl MatchQueue {
    /// An empty queue.
    pub fn new() -> (r: MatchQueue)
        ensures
            r.players@ == Seq::<u128>::empty(),
    {
        MatchQueue { players: Vec::new() }
    }

    /// The number of waiting players.
    pub fn len(&self) -> (r: usize)
        ensures
            r == self.players@.len(),
    {
        self.players.len()
    }

    /// Puts a player at the back of the queue.
    pub fn push(&mut self, uuid: u128)
        ensures
            final(self).players@ == old(self).players@.push(uuid),
    {
        self.players.push(uuid);
    }

    /// Takes every occurrence of a player out of the queue; the others keep
    /// their order.
    pub fn remove_player(&mut self, uuid: u128)
        ensures
            final(self).players@ == without(old(self).players@, uuid),
    {
        let mut kept: Vec<u128> = Vec::new();
        let mut i: usize = 0;
        while i < self.players.len()
            invariant
                i <= self.players@.len(),
                kept@ == without(self.players@.subrange(0, i as int), uuid),
            decreases self.players@.len() - i,
        {
            assert(self.players@.subrange(0, i + 1).drop_last() =~= self.players@.subrange(0, i as int));
            if self.players[i] != uuid {
                kept.push(self.players[i]);
            }
            i = i + 1;
        }
        assert(self.players@.subrange(0, i as int) =~= self.players@);
        self.players = kept;
    }

    /// Takes the first two players out of the queue, when there are two.
    pub fn try_match_2(&mut self) -> (r: Option<(u128, u128)>)
        ensures
            old(self).players@.len() >= 2 ==> {
                &&& r == Some((old(self).players@[0], old(self).players@[1]))
                &&& final(self).players@ == old(self).players@.subrange(2, old(self).players@.len() as int)
            },
            old(self).players@.len() < 2 ==> r is None && final(self).players@ == old(self).players@,
    {
        if self.players.len() >= 2 {
            let a = self.players.remove(0);
            let b = self.players.remove(0);
            assert(self.players@ =~= old(self).players@.subrange(2, old(self).players@.len() as int));
            Some((a, b))
        } else {
            None
        }
    }

    /// Takes the first four players out of the queue, when there are four.
    pub fn try_match_4(&mut self) -> (r: Option<(u128, u128, u128, u128)>)
        ensures
            old(self).players@.len() >= 4 ==> {
                &&& r == Some((old(self).players@[0], old(self).players@[1], old(self).players@[2], old(self).players@[3]))
                &&& final(self).players@ == old(self).players@.subrange(4, old(self).players@.len() as int)
            },
            old(self).players@.len() < 4 ==> r is None && final(self).players@ == old(self).players@,
    {
        if self.players.len() >= 4 {
            let a = self.players.remove(0);
            let b = self.players.remove(0);
            let c = self.players.remove(0);
            let d = self.players.remove(0);
            assert(self.players@ =~= old(self).players@.subrange(4, old(self).players@.len() as int));
            Some((a, b, c, d))
        } else {
            None
        }
    }

    /// Carries out a command on this queue, which holds the players waiting
    /// for matches of the given kind: adding or removing a player for that
    /// kind of match. Other commands leave the queue as it is.
    pub fn apply(&mut self, kind: QueueType, command: &MessageCommand)
        ensures
            final(self).players@ == match (kind, *command) {
                (QueueType::Two, MessageCommand::AddPlayer2(u)) => old(self).players@.push(u),
                (QueueType::Two, MessageCommand::RemovePlayer2(u)) => without(old(self).players@, u),
                (QueueType::Four, MessageCommand::AddPlayer4(u)) => old(self).players@.push(u),
                (QueueType::Four, MessageCommand::RemovePlayer4(u)) => without(old(self).players@, u),
                _ => old(self).players@,
            },
    {
        match (kind, command) {
            (QueueType::Two, MessageCommand::AddPlayer2(u)) => self.push(*u),
            (QueueType::Two, MessageCommand::RemovePlayer2(u)) => self.remove_player(*u),
            (QueueType::Four, MessageCommand::AddPlayer4(u)) => self.push(*u),
            (QueueType::Four, MessageCommand::RemovePlayer4(u)) => self.remove_player(*u),
            _ => {},
        }
    }
}

/// After a player is taken out of a queue, the player no longer waits in it.
pub proof fn lemma_removed_player_absent(s: Seq<u128>, u: u128)
    ensures
        !without(s, u).contains(u),
        without(s, u).len() <= s.len(),
    decreases s.len(),
{
    if s.len() > 0 {
        lemma_removed_player_absent(s.drop_last(), u);
        if s.last() != u {
            let w = without(s.drop_last(), u);
            assert forall|i: int| 0 <= i < w.push(s.last()).len() implies w.push(s.last())[i] != u by {
                if i < w.len() {
                    assert(w.push(s.last())[i] == w[i]);
                }
            }
        }
    }
}

/// Taking out a player who does not wait changes nothing.
pub proof fn lemma_remove_absent_player(s: Seq<u128>, u: u128)
    requires
        !s.contains(u),
    ensures
        without(s, u) == s,
    decreases s.len(),
{
    if s.len() > 0 {
        assert(!s.drop_last().contains(u)) by {
            if s.drop_last().contains(u) {
                let i = choose|i: int| 0 <= i < s.drop_last().len() && s.drop_last()[i] == u;
                assert(s[i] == u);
            }
        }
        lemma_remove_absent_player(s.drop_last(), u);
        assert(s.drop_last().push(s.last()) =~= s);
    }
}

/// A player who joins and then leaves a queue leaves it as it would be had
/// the player left without joining.
pub proof fn lemma_join_then_leave(s: Seq<u128>, u: u128)
    ensures
        without(s.push(u), u) == without(s, u),
{
    assert(s.push(u).drop_last() =~= s);
}

/// A two-player match loses and duplicates no one: the two matched players
/// followed by those still waiting are the queue as it was.
pub proof fn lemma_match_keeps_everyone(s: Seq<u128>)
    requires
        s.len() >= 2,
    ensures
        seq![s[0], s[1]] + s.subrange(2, s.len() as int) == s,
{
    assert(seq![s[0], s[1]] + s.subrange(2, s.len() as int) =~= s);
}

} // verus!
