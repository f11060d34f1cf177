//! Verified core of a small matchmaking game server: the wire protocol's
//! message model, the per-player matching state machine, the match queues
//! and the decisions of the server's event loops.

pub mod client;
pub mod connect;
pub mod error;
pub mod handlers;
pub mod ids;
pub mod json;
pub mod protocol;
pub mod queue;
pub mod server;
pub mod states;
pub mod text;

pub use error::MessageError;
pub use handlers::{
    message_handle, partition_results, read_loop_exit, request_data_handle, send_data_handle,
    HandleOutcome, HandleResult, MessageCommand, UserState,
};
pub use json::{JsonMap, JsonValue, TcpMessage};
pub use queue::MatchQueue;
pub use server::{
    connection_end, join_session, matching_round, player_event, player_outcome, session_2_messages,
    starts_session, ConnectionEnd, TaskEnd, AnyPayload, PlayerAction, ServerAction,
    ServerState, SessionID, ThreadMessage, ThreadMessageCommand, ThreadMessageData,
};
pub use states::{ErrorLevel, MatchingState, QueueType};
