//! A ledger of group chats: every chat has a fixed list of participants, one
//! encrypted key blob per participant and an append-only log of messages. A
//! registry hands out chat identifiers and keeps, for every account, the list
//! of chats the account takes part in.

pub mod account;
pub mod clock;
pub mod message;
pub mod chat;
pub mod user_chats;
pub mod alephchat;
