//! Messages and the commands that create them.

use crate::clock::block_timestamp;
use ink::primitives::AccountId;
use vstd::prelude::*;

verus! {

/// One utterance in a chat. A message is created once and never changes.
pub struct Message {
    /// Position of the message in the log of its chat, counted from 0.
    pub id: u64,
    /// The chat that owns the message.
    pub chat_id: u64,
    pub author: AccountId,
    /// The payload, stored as it was handed in.
    pub message: String,
    /// The host's block time when the message was created.
    pub timestamp: u64,
}

/// What a caller supplies for a new message.
pub struct MessageCreateCommand {
    pub author: AccountId,
    pub message: String,
}

/// The first message of a chat, together with one encrypted key blob per
/// participant, in the order of the participants.
pub struct InitMessage {
    pub init_message: MessageCreateCommand,
    pub encrypted_cypher: Vec<Vec<u8>>,
}

/// The mathematical value of a [`Message`].
pub struct MessageView {
    pub id: nat,
    pub chat_id: nat,
    pub author: AccountId,
    pub content: Seq<char>,
    pub timestamp: nat,
}

/// The mathematical value of a [`MessageCreateCommand`].
pub struct MessageCreateCommandView {
    pub author: AccountId,
    pub content: Seq<char>,
}

/// The mathematical value of an [`InitMessage`].
pub struct InitMessageView {
    pub init_message: MessageCreateCommandView,
    pub key_material: Seq<Seq<u8>>,
}

/// The contents of a list of key blobs.
pub open spec fn key_blobs(keys: Seq<Vec<u8>>) -> Seq<Seq<u8>> {
    keys.map_values(|blob: Vec<u8>| blob@)
}

/// The contents of a list of messages.
pub open spec fn message_views(messages: Seq<Message>) -> Seq<MessageView> {
    messages.map_values(|message: Message| message@)
}

impl MessageView {
    /// The message that `command` becomes as number `id` of chat `chat_id`
    /// when the clock shows `now`.
    pub open spec fn stamped(
        command: MessageCreateCommandView,
        id: nat,
        chat_id: nat,
        now: nat,
    ) -> MessageView {
        MessageView {
            id,
            chat_id,
            author: command.author,
            content: command.content,
            timestamp: now,
        }
    }
}

impl View for Message {
    type V = MessageView;

    open spec fn view(&self) -> MessageView {
        MessageView {
            id: self.id as nat,
            chat_id: self.chat_id as nat,
            author: self.author,
            content: self.message@,
            timestamp: self.timestamp as nat,
        }
    }
}

impl View for MessageCreateCommand {
    type V = MessageCreateCommandView;

    open spec fn view(&self) -> MessageCreateCommandView {
        MessageCreateCommandView { author: self.author, content: self.message@ }
    }
}

impl View for InitMessage {
    type V = InitMessageView;

    open spec fn view(&self) -> InitMessageView {
        InitMessageView {
            init_message: self.init_message@,
            key_material: key_blobs(self.encrypted_cypher@),
        }
    }
}

impl Clone for Message {
    fn clone(&self) -> (copy: Self)
        ensures
            copy == *self,
    {
        Message {
            id: self.id,
            chat_id: self.chat_id,
            author: self.author,
            message: self.message.clone(),
            timestamp: self.timestamp,
        }
    }
}

impl Clone for MessageCreateCommand {
    fn clone(&self) -> (copy: Self)
        ensures
            copy == *self,
    {
        MessageCreateCommand { author: self.author, message: self.message.clone() }
    }
}

/// A copy of a list of key blobs.
pub(crate) fn copy_blobs(keys: &Vec<Vec<u8>>) -> (copy: Vec<Vec<u8>>)
    ensures
        key_blobs(copy@) == key_blobs(keys@),
{
    let mut copy: Vec<Vec<u8>> = Vec::new();
    let mut i: usize = 0;
    while i < keys.len()
        invariant
            i <= keys.len(),
            key_blobs(copy@) == key_blobs(keys@.take(i as int)),
        decreases keys.len() - i,
    {
        let blob = keys[i].clone();
        copy.push(blob);
        assert(key_blobs(keys@.take(i + 1)) =~= key_blobs(keys@.take(i as int)).push(
            keys@[i as int]@,
        ));
        i += 1;
    }
    copy
}

impl Clone for InitMessage {
    fn clone(&self) -> (copy: Self)
        ensures
            copy@ == self@,
    {
        InitMessage {
            init_message: self.init_message.clone(),
            encrypted_cypher: copy_blobs(&self.encrypted_cypher),
        }
    }
}

impl Message {
    /// Builds the message that `init_message` becomes as number `id` of chat
    /// `chat_id`, stamped with `now`.
    pub fn new_at(init_message: MessageCreateCommand, id: u64, chat_id: u64, now: u64) -> (created:
        Self)
        ensures
            created@ == MessageView::stamped(
                init_message@,
                id as nat,
                chat_id as nat,
                now as nat,
            ),
    {
        Message {
            id,
            chat_id,
            author: init_message.author,
            message: init_message.message,
            timestamp: now,
        }
    }

    /// Builds the message that `init_message` becomes as number `id` of chat
    /// `chat_id`, stamped with the host's block time at the moment of the call.
    /// Everything but the timestamp is determined by the arguments.
    pub fn new(init_message: MessageCreateCommand, id: u64, chat_id: u64) -> (created: Self)
        ensures
            created@ == MessageView::stamped(
                init_message@,
                id as nat,
                chat_id as nat,
                created@.timestamp,
            ),
    {
        let now = block_timestamp();
        Message::new_at(init_message, id, chat_id, now)
    }
}

impl InitMessage {
    /// Pairs the first message of a chat with the key blobs of its participants.
    pub fn new(init_message: MessageCreateCommand, encrypted_cypher: Vec<Vec<u8>>) -> (created:
        Self)
        ensures
            created.init_message == init_message,
            created.encrypted_cypher == encrypted_cypher,
    {
        InitMessage { init_message, encrypted_cypher }
    }
}

} // verus!
