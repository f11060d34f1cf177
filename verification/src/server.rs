//! The decisions of the server's event loops: what the central loop does
//! with each message from the connection tasks, what a player's task does
//! with each message sent to it, and the matching rounds.
use vstd::prelude::*;

use crate::error::MessageError;
use crate::handlers::UserState;
use crate::queue::MatchQueue;
use crate::states::MatchingState;
use vstd::std_specs::cmp::PartialEqSpecImpl;

verus! {

/// The identifier of a game session.
pub type SessionID = i64;

/// Any other data that one task hands to another.
pub trait AnyPayload: Send + Sync {
}

/// Data passed between the server's tasks.
pub enum ThreadMessageData {
    String(String),
    UserState(UserState),
    SessionID(SessionID),
    AnyData(Box<dyn AnyPayload>),
}

/// Whether two data messages are of the same kind; their contents are not
/// compared.
pub open spec fn same_data_kind(a: ThreadMessageData, b: ThreadMessageData) -> bool {
    ||| (a is String && b is String)
    ||| (a is UserState && b is UserState)
    ||| (a is SessionID && b is SessionID)
    ||| (a is AnyData && b is AnyData)
}

impl PartialEq for ThreadMessageData {
    fn eq(&self, other: &Self) -> (r: bool) {
        match (self, other) {
            (ThreadMessageData::String(_), ThreadMessageData::String(_)) => true,
            (ThreadMessageData::UserState(_), ThreadMessageData::UserState(_)) => true,
            (ThreadMessageData::SessionID(_), ThreadMessageData::SessionID(_)) => true,
            (ThreadMessageData::AnyData(_), ThreadMessageData::AnyData(_)) => true,
            _ => false,
        }
    }
}

impl PartialEqSpecImpl for ThreadMessageData {
    open spec fn obeys_eq_spec() -> bool {
        true
    }

    open spec fn eq_spec(&self, other: &ThreadMessageData) -> bool {
        same_data_kind(*self, *other)
    }
}

/// Commands passed between the server's tasks.
#[derive(Debug, Clone, Copy, PartialEq, Eq, Structural)]
pub enum ThreadMessageCommand {
    NewConnect,
    NewPlayer(u128),
    EndOfConnect(u128),
    AddPlayer(u128),
    NewSession2(u128, u128),
    NewSession4(u128, u128, u128, u128),
    EndOfTask,
}

/// A message between the server's tasks.
#[derive(PartialEq)]
pub enum ThreadMessage {
    Data(ThreadMessageData),
    Command(ThreadMessageCommand),
}

// ---------------------------------------------------------------------------
// The central loop
// ---------------------------------------------------------------------------

/// What the central loop keeps track of: the next session identifier, the
/// players that have a user task, and the sessions started so far.
#[derive(Debug, PartialEq)]
pub struct ServerState {
    pub session_id: SessionID,
    pub user_tasks: Vec<u128>,
    pub sessions: Vec<SessionID>,
}

/// What the central loop does in answer to a message.
#[derive(Debug, Clone, Copy, PartialEq, Eq, Structural)]
pub enum ServerAction {
    /// Nothing to do.
    Ignore,
    /// A client connected; it is logged.
    NewClient,
    /// Start the user task of a new player.
    SpawnUserTask(u128),
    /// Tell the user task of a player that the player left.
    EndUserTask(u128),
    /// Start a two-player session.
    SpawnSession2(SessionID, u128, u128),
    /// Start a four-player session.
    SpawnSession4(SessionID, u128, u128, u128, u128),
}

/// The central loop's bookkeeping is consistent: no player has two user
/// tasks, and the sessions started so far have the identifiers 0, 1, 2, ...
/// in the order they started, the next identifier being their number.
pub open spec fn server_wf(s: ServerState) -> bool {
    &&& s.user_tasks@.no_duplicates()
    &&& s.sessions@.len() == s.session_id
    &&& forall|i: int| 0 <= i < s.sessions@.len() ==> #[trigger] s.sessions@[i] == i
}

/// Whether a message asks the central loop to start a session.
pub open spec fn is_session_command(m: ThreadMessage) -> bool {
    ||| m matches ThreadMessage::Command(ThreadMessageCommand::NewSession2(_, _))
    ||| m matches ThreadMessage::Command(ThreadMessageCommand::NewSession4(_, _, _, _))
}

/// Session identifiers are handed out in order: in a consistent state the
/// `k`-th session started has the identifier `k`, no identifier is used
/// twice, and the next session gets the number of sessions started so far.
/// With `ServerState::new` starting from no session and `ServerState::step`
/// appending each new session under the next identifier, the `k`-th session
/// command the central loop receives gets the identifier `k`.
pub proof fn lemma_session_ids_in_order(s: ServerState)
    requires
        server_wf(s),
    ensures
        s.session_id == s.sessions@.len(),
        forall|k: int| 0 <= k < s.sessions@.len() ==> #[trigger] s.sessions@[k] == k,
        s.sessions@.no_duplicates(),
        !s.sessions@.contains(s.session_id),
{
}

/// Whether the central loop handles a message: it does not handle the
/// commands that only players' tasks exchange.
pub open spec fn server_handles(m: ThreadMessage) -> bool {
    !(m matches ThreadMessage::Command(ThreadMessageCommand::AddPlayer(_)))
        && !(m matches ThreadMessage::Command(ThreadMessageCommand::EndOfTask))
}

/// Whether the central loop handles a command (see `server_handles`).
pub fn server_handles_command(command: &ThreadMessageCommand) -> (r: bool)
    ensures
        r == server_handles(ThreadMessage::Command(*command)),
{
    match command {
        ThreadMessageCommand::AddPlayer(_) => false,
        ThreadMessageCommand::EndOfTask => false,
        _ => true,
    }
}

/// `s` without the occurrences of `x`, the rest kept in order.
pub open spec fn seq_without<T>(s: Seq<T>, x: T) -> Seq<T> {
    s.filter(|y: T| y != x)
}

/// Finds a player in a list.
fn index_of_player(v: &Vec<u128>, x: u128) -> (r: Option<usize>)
    ensures
        r matches Some(i) ==> i < v@.len() && v@[i as int] == x,
        r is None ==> !v@.contains(x),
{
    let mut i: usize = 0;
    while i < v.len()
        invariant
            i <= v@.len(),
            forall|j: int| 0 <= j < i ==> v@[j] != x,
        decreases v@.len() - i,
    {
        if v[i] == x {
            return Some(i);
        }
        i = i + 1;
    }
    None
}

/// Finds a session identifier in a list.
fn index_of_session(v: &Vec<SessionID>, x: SessionID) -> (r: Option<usize>)
    ensures
        r matches Some(i) ==> i < v@.len() && v@[i as int] == x,
        r is None ==> !v@.contains(x),
{
    let mut i: usize = 0;
    while i < v.len()
        invariant
            i <= v@.len(),
            forall|j: int| 0 <= j < i ==> v@[j] != x,
        decreases v@.len() - i,
    {
        if v[i] == x {
            return Some(i);
        }
        i = i + 1;
    }
    None
}

impl ServerState {
    /// The state of the central loop when the server starts.
    pub fn new() -> (r: ServerState)
        ensures
            r.session_id == 0,
            r.user_tasks@.len() == 0,
            r.sessions@.len() == 0,
            server_wf(r),
    {
        ServerState { session_id: 0, user_tasks: Vec::new(), sessions: Vec::new() }
    }

    /// What the central loop does with one message. A new player gets a user
    /// task unless it has one; a player who leaves has its task told, if it
    /// has one; a new session gets the next identifier, which then advances.
    pub fn step(&mut self, message: &ThreadMessage) -> (r: ServerAction)
        requires
            server_wf(*old(self)),
            server_handles(*message),
            is_session_command(*message) ==> old(self).session_id < i64::MAX,
        ensures
            server_wf(*final(self)),
            match *message {
                ThreadMessage::Data(_) => r == ServerAction::Ignore && *final(self) == *old(self),
                ThreadMessage::Command(c) => match c {
                    ThreadMessageCommand::NewConnect => r == ServerAction::NewClient && *final(self) == *old(self),
                    ThreadMessageCommand::NewPlayer(u) => if old(self).user_tasks@.contains(u) {
                        r == ServerAction::Ignore && *final(self) == *old(self)
                    } else {
                        &&& r == ServerAction::SpawnUserTask(u)
                        &&& final(self).user_tasks@ == old(self).user_tasks@.push(u)
                        &&& final(self).sessions == old(self).sessions
                        &&& final(self).session_id == old(self).session_id
                    },
                    ThreadMessageCommand::EndOfConnect(u) => if old(self).user_tasks@.contains(u) {
                        &&& r == ServerAction::EndUserTask(u)
                        &&& final(self).user_tasks@ == seq_without(old(self).user_tasks@, u)
                        &&& final(self).sessions == old(self).sessions
                        &&& final(self).session_id == old(self).session_id
                    } else {
                        r == ServerAction::Ignore && *final(self) == *old(self)
                    },
                    ThreadMessageCommand::NewSession2(a, b) => {
                        &&& r == ServerAction::SpawnSession2(old(self).sessions@.len() as SessionID, a, b)
                        &&& final(self).sessions@ == old(self).sessions@.push(old(self).session_id)
                        &&& final(self).session_id == old(self).session_id + 1
                        &&& final(self).user_tasks == old(self).user_tasks
                    },
                    ThreadMessageCommand::NewSession4(a, b, c, d) => {
                        &&& r == ServerAction::SpawnSession4(old(self).sessions@.len() as SessionID, a, b, c, d)
                        &&& final(self).sessions@ == old(self).sessions@.push(old(self).session_id)
                        &&& final(self).session_id == old(self).session_id + 1
                        &&& final(self).user_tasks == old(self).user_tasks
                    },
                    _ => false,
                },
            },
    {
        match message {
            ThreadMessage::Data(_) => ServerAction::Ignore,
            ThreadMessage::Command(command) => match command {
                ThreadMessageCommand::NewConnect => ServerAction::NewClient,
                ThreadMessageCommand::NewPlayer(u) => {
                    match index_of_player(&self.user_tasks, *u) {
                        Some(_) => ServerAction::Ignore,
                        None => {
                            self.user_tasks.push(*u);
                            ServerAction::SpawnUserTask(*u)
                        },
                    }
                },
                ThreadMessageCommand::EndOfConnect(u) => {
                    match index_of_player(&self.user_tasks, *u) {
                        Some(i) => {
                            let ghost before = self.user_tasks@;
                            self.user_tasks.remove(i);
                            proof {
                                lemma_remove_unique(before, i as int, *u);
                            }
                            ServerAction::EndUserTask(*u)
                        },
                        None => ServerAction::Ignore,
                    }
                },
                ThreadMessageCommand::NewSession2(a, b) => {
                    let id = self.start_session();
                    ServerAction::SpawnSession2(id, *a, *b)
                },
                ThreadMessageCommand::NewSession4(a, b, c, d) => {
                    let id = self.start_session();
                    ServerAction::SpawnSession4(id, *a, *b, *c, *d)
                },
                ThreadMessageCommand::AddPlayer(_) => ServerAction::Ignore,
                ThreadMessageCommand::EndOfTask => ServerAction::Ignore,
            },
        }
    }

    /// Records a new session under the next identifier, which is free, and
    /// advances the identifier.
    fn start_session(&mut self) -> (id: SessionID)
        requires
            server_wf(*old(self)),
            old(self).session_id < i64::MAX,
        ensures
            id == old(self).session_id,
            server_wf(*final(self)),
            final(self).sessions@ == old(self).sessions@.push(id),
            final(self).session_id == id + 1,
            final(self).user_tasks == old(self).user_tasks,
    {
        let id = self.session_id;
        match index_of_session(&self.sessions, id) {
            Some(i) => {
                assert(self.sessions@[i as int] == i);
                id
            },
            None => {
                self.sessions.push(id);
                self.session_id = id + 1;
                id
            },
        }
    }
}

// ---------------------------------------------------------------------------
// A player's task
// ---------------------------------------------------------------------------

/// What a player's task does with a message sent to it.
#[derive(Debug, Clone, Copy, PartialEq, Eq, Structural)]
pub enum PlayerAction {
    /// Nothing to do.
    Ignore,
    /// The player, who is matching, was given a session: look it up.
    JoinSession(SessionID),
    /// The task is done.
    Finish,
    /// A two-player match was made: tell the player the two names.
    AnnounceMatch2(u128, u128),
}

/// What a player's task does with a message: a session identifier matters
/// only while the player is matching for a two-player game; the end of the
/// task and a new two-player session are acted on; everything else is
/// passed over.
pub fn player_event(state: &UserState, message: &ThreadMessage) -> (r: PlayerAction)
    ensures
        r == match *message {
            ThreadMessage::Data(ThreadMessageData::SessionID(id)) => if state.matching_state_2
                == MatchingState::Matching {
                PlayerAction::JoinSession(id)
            } else {
                PlayerAction::Ignore
            },
            ThreadMessage::Command(ThreadMessageCommand::EndOfTask) => PlayerAction::Finish,
            ThreadMessage::Command(ThreadMessageCommand::NewSession2(a, b)) => PlayerAction::AnnounceMatch2(a, b),
            _ => PlayerAction::Ignore,
        },
{
    match message {
        ThreadMessage::Data(ThreadMessageData::SessionID(id)) => {
            if state.matching_state_2 == MatchingState::Matching {
                PlayerAction::JoinSession(*id)
            } else {
                PlayerAction::Ignore
            }
        },
        ThreadMessage::Command(ThreadMessageCommand::EndOfTask) => PlayerAction::Finish,
        ThreadMessage::Command(ThreadMessageCommand::NewSession2(a, b)) => PlayerAction::AnnounceMatch2(*a, *b),
        _ => PlayerAction::Ignore,
    }
}

/// What joining a session comes to for a player's task: a session that the
/// central loop does not know ends the task with `NotFound`.
pub fn join_session(session_known: bool) -> (r: Result<(), MessageError>)
    ensures
        session_known ==> r == Ok::<(), MessageError>(()),
        !session_known ==> r == Err::<(), MessageError>(MessageError::NotFound),
{
    if session_known {
        Ok(())
    } else {
        Err(MessageError::NotFound)
    }
}

/// How a player's tasks ended, as the first of them to finish reports it.
pub enum TaskEnd {
    /// The task returned this result.
    Returned(Result<(), MessageError>),
    /// The task did not return (it panicked or was cancelled); the text says why.
    Aborted(String),
    /// No task was running.
    NoTask,
}

/// The outcome of a player's connection, given how its tasks ended: a task
/// that finished cleanly gives back the player's UUID; any failure is
/// reported with the UUID; an aborted task is an `OtherError` with the
/// reason's text; no task at all is an `UndefinedError`.
pub fn player_outcome(uuid: u128, end: TaskEnd) -> (r: Result<u128, (u128, MessageError)>)
    ensures
        match end {
            TaskEnd::Returned(Ok(())) => r == Ok::<u128, (u128, MessageError)>(uuid),
            TaskEnd::Returned(Err(e)) => r == Err::<u128, (u128, MessageError)>((uuid, e)),
            TaskEnd::Aborted(t) => r == Err::<u128, (u128, MessageError)>((uuid, MessageError::OtherError(t))),
            TaskEnd::NoTask => r == Err::<u128, (u128, MessageError)>((uuid, MessageError::UndefinedError)),
        },
{
    match end {
        TaskEnd::Returned(Ok(())) => Ok(uuid),
        TaskEnd::Returned(Err(e)) => Err((uuid, e)),
        TaskEnd::Aborted(t) => Err((uuid, MessageError::OtherError(t))),
        TaskEnd::NoTask => Err((uuid, MessageError::UndefinedError)),
    }
}

/// What a connection's end asks of the server.
#[derive(Debug, Clone, Copy, PartialEq, Eq, Structural)]
pub enum ConnectionEnd {
    /// Forget the player's channel and tell the central loop the player left.
    ForgetAndNotify(u128),
    /// Forget the player's channel; the failure is only logged.
    Forget(u128),
    /// The player's task did not return: forget every closed channel.
    PruneClosed,
}

/// What a connection's end asks of the server, given how the player's
/// connection ended (`None` when its task did not return): a clean end
/// forgets the player and tells the central loop; a failure only forgets
/// the player; a task that did not return leaves only the open channels.
pub fn connection_end(outcome: &Option<Result<u128, (u128, MessageError)>>) -> (r: ConnectionEnd)
    ensures
        match *outcome {
            Some(Ok(u)) => r == ConnectionEnd::ForgetAndNotify(u),
            Some(Err((u, _))) => r == ConnectionEnd::Forget(u),
            None => r == ConnectionEnd::PruneClosed,
        },
{
    match outcome {
        Some(Ok(u)) => ConnectionEnd::ForgetAndNotify(*u),
        Some(Err((u, _))) => ConnectionEnd::Forget(*u),
        None => ConnectionEnd::PruneClosed,
    }
}

/// Whether the central loop must check its session counter before a message:
/// only a session command advances it.
pub fn starts_session(message: &ThreadMessage) -> (r: bool)
    ensures
        r == is_session_command(*message),
{
    match message {
        ThreadMessage::Command(ThreadMessageCommand::NewSession2(_, _)) => true,
        ThreadMessage::Command(ThreadMessageCommand::NewSession4(_, _, _, _)) => true,
        _ => false,
    }
}

/// The messages that start a two-player session, each with the player it
/// goes to: each player learns of the match (itself first), then both learn
/// the session's identifier. Both players must be reachable; if either is
/// not, nothing is sent and the answer is `NotFound`.
pub fn session_2_messages(session_id: SessionID, a: u128, a_reachable: bool, b: u128, b_reachable: bool) -> (r: Result<Vec<(u128, ThreadMessage)>, MessageError>)
    ensures
        !(a_reachable && b_reachable) ==> r == Err::<Vec<(u128, ThreadMessage)>, MessageError>(MessageError::NotFound),
        a_reachable && b_reachable ==> (r matches Ok(v) && v@ == seq![
            (a, ThreadMessage::Command(ThreadMessageCommand::NewSession2(a, b))),
            (b, ThreadMessage::Command(ThreadMessageCommand::NewSession2(b, a))),
            (a, ThreadMessage::Data(ThreadMessageData::SessionID(session_id))),
            (b, ThreadMessage::Data(ThreadMessageData::SessionID(session_id))),
        ]),
{
    if !a_reachable || !b_reachable {
        return Err(MessageError::NotFound);
    }
    let mut v: Vec<(u128, ThreadMessage)> = Vec::new();
    v.push((a, ThreadMessage::Command(ThreadMessageCommand::NewSession2(a, b))));
    v.push((b, ThreadMessage::Command(ThreadMessageCommand::NewSession2(b, a))));
    v.push((a, ThreadMessage::Data(ThreadMessageData::SessionID(session_id))));
    v.push((b, ThreadMessage::Data(ThreadMessageData::SessionID(session_id))));
    Ok(v)
}

// ---------------------------------------------------------------------------
// Matching rounds
// ---------------------------------------------------------------------------

/// One round of matchmaking: when two players wait for a two-player match,
/// the first two make a new two-player session; when four wait for a
/// four-player match, the first four make a new four-player session.
pub fn matching_round(queue_2: &mut MatchQueue, queue_4: &mut MatchQueue) -> (r: (Option<ThreadMessageCommand>, Option<ThreadMessageCommand>))
    ensures
        ({
            let q = old(queue_2).players@;
            if q.len() >= 2 {
                &&& r.0 == Some(ThreadMessageCommand::NewSession2(q[0], q[1]))
                &&& final(queue_2).players@ == q.subrange(2, q.len() as int)
            } else {
                &&& r.0 is None
                &&& final(queue_2).players@ == q
            }
        }),
        ({
            let q = old(queue_4).players@;
            if q.len() >= 4 {
                &&& r.1 == Some(ThreadMessageCommand::NewSession4(q[0], q[1], q[2], q[3]))
                &&& final(queue_4).players@ == q.subrange(4, q.len() as int)
            } else {
                &&& r.1 is None
                &&& final(queue_4).players@ == q
            }
        }),
{
    let two = match queue_2.try_match_2() {
        Some((a, b)) => Some(ThreadMessageCommand::NewSession2(a, b)),
        None => None,
    };
    let four = match queue_4.try_match_4() {
        Some((a, b, c, d)) => Some(ThreadMessageCommand::NewSession4(a, b, c, d)),
        None => None,
    };
    (two, four)
}

/// Removing the only occurrence of `x` from a sequence without duplicates
/// leaves the sequence without `x`.
#[verifier::spinoff_prover]
proof fn lemma_remove_unique<T>(s: Seq<T>, i: int, x: T)
    requires
        s.no_duplicates(),
        0 <= i < s.len(),
        s[i] == x,
    ensures
        s.remove(i) == seq_without(s, x),
        s.remove(i).no_duplicates(),
{
    broadcast use vstd::seq_lib::group_filter_ensures;
    let r = s.remove(i);
    let f = seq_without(s, x);
    assert(s =~= s.subrange(0, i) + seq![x] + s.subrange(i + 1, s.len() as int));
    let pred = |y: T| y != x;
    assert(s.subrange(0, i).filter(pred) =~= s.subrange(0, i)) by {
        lemma_filter_keeps_all(s.subrange(0, i), pred);
    }
    assert(s.subrange(i + 1, s.len() as int).filter(pred) =~= s.subrange(i + 1, s.len() as int)) by {
        lemma_filter_keeps_all(s.subrange(i + 1, s.len() as int), pred);
    }
    reveal_with_fuel(Seq::filter, 2);
    assert(seq![x].filter(pred) =~= Seq::<T>::empty());
    Seq::filter_distributes_over_add(s.subrange(0, i) + seq![x], s.subrange(i + 1, s.len() as int), pred);
    Seq::filter_distributes_over_add(s.subrange(0, i), seq![x], pred);
    assert(r =~= s.subrange(0, i) + s.subrange(i + 1, s.len() as int));
}

/// Filtering keeps a sequence whole when every element passes.
proof fn lemma_filter_keeps_all<T>(s: Seq<T>, pred: spec_fn(T) -> bool)
    requires
        forall|j: int| 0 <= j < s.len() ==> pred(s[j]),
    ensures
        s.filter(pred) == s,
    decreases s.len(),
{
    reveal(Seq::filter);
    if s.len() > 0 {
        lemma_filter_keeps_all(s.drop_last(), pred);
        assert(s.drop_last().push(s.last()) =~= s);
    }
}

} // verus!
