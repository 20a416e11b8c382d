//! Core of a small personal server: the real-time chat transport (a
//! connection registry, per-connection outbound queues, and the
//! publish/subscribe fanout algorithm), the wire-format types it exchanges,
//! and the pure helpers the surrounding REST layer relies on.
//!
//! Everything here is verified. The unverified edges (HTTP, sockets, the
//! document store, token signing) live in the companion application crate
//! and talk to this library through plain values.

pub mod ack;
pub mod channel;
pub mod chat;
pub mod config;
pub mod error_handler;
pub mod games;
pub mod log;
pub mod message;
pub mod notes;
pub mod packet;
pub mod registry;
pub mod reminder;
pub mod resource_kinds;
pub mod server;
pub mod store;
pub mod text;
pub mod user;
pub mod util;

pub use ack::WebsocketAck;
pub use error_handler::{DbError, ServerError};
pub use resource_kinds::ResourceKind;
pub use channel::{ChannelSubscribeSchema, ChannelType, ChatChannel, CreateChannelSchema};
pub use message::{ChatMessage, CreateMessageSchema, EmojiDetails, Reactions};
pub use packet::{RequestMessagesSchema, WebSocketRequest, WebSocketResponse};
pub use config::Config;
pub use games::{
    ConnectionCategory, ConnectionCategorySchema, ConnectionGame, ConnectionGameSchema,
    MinimalConnectionsGame, PlayConnectionGame, TrySolveRow,
};
pub use log::{Log, LogCreationTask};
pub use reminder::{Category, CategorySchema, Priority, Reminder, ReminderSchema, ReminderUpdateSchema};
pub use registry::ConnectionRegistry;
pub use server::ChatServer;
pub use store::ChatStore;
pub use user::{AuthLevel, LoginUserSchema, ReturnUser, User};
pub use util::current_unix_time;
