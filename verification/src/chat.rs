//! A chat: its participants, their key blobs and its message log.

use crate::account::same_account;
use crate::clock::block_timestamp;
use crate::message::{
    copy_blobs, key_blobs, message_views, InitMessage, InitMessageView, Message,
    MessageCreateCommand, MessageCreateCommandView, MessageView,
};
use ink::primitives::AccountId;
use vstd::prelude::*;

verus! {

/// A group chat. The participants and their key blobs are fixed when the chat
/// is created; the log only grows.
pub struct Chat {
    pub id: u64,
    pub participants: Vec<AccountId>,
    /// One blob per participant: `encrypted_cypher[i]` belongs to
    /// `participants[i]`.
    pub encrypted_cypher: Vec<Vec<u8>>,
    pub messages: Vec<Message>,
    /// The number that the next message gets.
    pub next_message_id: u64,
}

/// What a caller supplies for a new chat.
pub struct ChatCreateCommand {
    pub participants: Vec<AccountId>,
    pub init_message: InitMessage,
}

/// The mathematical value of a [`Chat`].
pub struct ChatView {
    pub id: nat,
    pub participants: Seq<AccountId>,
    pub key_material: Seq<Seq<u8>>,
    pub messages: Seq<MessageView>,
    pub next_message_id: nat,
}

/// The mathematical value of a [`ChatCreateCommand`].
pub struct ChatCreateCommandView {
    pub participants: Seq<AccountId>,
    pub init_message: InitMessageView,
}

impl View for Chat {
    type V = ChatView;

    open spec fn view(&self) -> ChatView {
        ChatView {
            id: self.id as nat,
            participants: self.participants@,
            key_material: key_blobs(self.encrypted_cypher@),
            messages: message_views(self.messages@),
            next_message_id: self.next_message_id as nat,
        }
    }
}

impl View for ChatCreateCommand {
    type V = ChatCreateCommandView;

    open spec fn view(&self) -> ChatCreateCommandView {
        ChatCreateCommandView { participants: self.participants@, init_message: self.init_message@ }
    }
}

/// `i` is the first position of `accounts` that holds `account`.
pub open spec fn is_first_index_of(accounts: Seq<AccountId>, account: AccountId, i: int) -> bool {
    &&& 0 <= i < accounts.len()
    &&& accounts[i] == account
    &&& forall|j: int| 0 <= j < i ==> accounts[j] != account
}

impl ChatCreateCommandView {
    /// The command brings exactly one key blob for each participant.
    pub open spec fn keys_match_participants(self) -> bool {
        self.participants.len() == self.init_message.key_material.len()
    }
}

impl ChatView {
    /// There is exactly one key blob for each participant.
    pub open spec fn keys_match_participants(self) -> bool {
        self.participants.len() == self.key_material.len()
    }

    /// The counter equals the number of messages in the log.
    pub open spec fn counter_matches_log(self) -> bool {
        self.messages.len() == self.next_message_id
    }

    /// The messages are numbered 0, 1, 2, ... in the order in which they
    /// stand in the log, and each of them names this chat.
    pub open spec fn log_in_order(self) -> bool {
        forall|i: int|
            0 <= i < self.messages.len() ==> (#[trigger] self.messages[i]).id == i
                && self.messages[i].chat_id == self.id
    }

    /// The invariant of a chat.
    pub open spec fn well_formed(self) -> bool {
        &&& self.keys_match_participants()
        &&& self.counter_matches_log()
        &&& self.log_in_order()
    }

    /// The chat with one more message at the end of its log: `command`,
    /// numbered by the counter and stamped with `now`.
    pub open spec fn add_message(self, command: MessageCreateCommandView, now: nat) -> ChatView {
        ChatView {
            messages: self.messages.push(
                MessageView::stamped(command, self.next_message_id, self.id, now),
            ),
            next_message_id: self.next_message_id + 1,
            ..self
        }
    }

    /// The chat that `command` creates under the identifier `id` when the
    /// clock shows `now`: an empty log to which the first message is appended.
    pub open spec fn new(command: ChatCreateCommandView, id: nat, now: nat) -> ChatView {
        ChatView {
            id,
            participants: command.participants,
            key_material: command.init_message.key_material,
            messages: Seq::empty(),
            next_message_id: 0,
        }.add_message(command.init_message.init_message, now)
    }

    /// The key blob of `account`: the one that stands where `account` first
    /// stands among the participants. There is none for an account that is no
    /// participant, nor where the list of blobs ends before that position.
    pub open spec fn key_of(self, account: AccountId) -> Option<Seq<u8>> {
        if exists|i: int|
            is_first_index_of(self.participants, account, i) && i < self.key_material.len() {
            let i = choose|i: int|
                is_first_index_of(self.participants, account, i) && i < self.key_material.len();
            Some(self.key_material[i])
        } else {
            None
        }
    }
}

/// An account has at most one first position in a list.
pub proof fn lemma_first_index_unique(
    accounts: Seq<AccountId>,
    account: AccountId,
    i: int,
    j: int,
)
    requires
        is_first_index_of(accounts, account, i),
        is_first_index_of(accounts, account, j),
    ensures
        i == j,
{
}

/// Where `account` first stands at position `i`, its key blob is the one at
/// position `i`, if there is one.
pub proof fn lemma_key_of_first_index(chat: ChatView, account: AccountId, i: int)
    requires
        is_first_index_of(chat.participants, account, i),
    ensures
        chat.key_of(account) == if i < chat.key_material.len() {
            Some(chat.key_material[i])
        } else {
            None
        },
{
    if i < chat.key_material.len() {
        let k = choose|k: int|
            is_first_index_of(chat.participants, account, k) && k < chat.key_material.len();
        lemma_first_index_unique(chat.participants, account, i, k);
    } else {
        assert forall|k: int| is_first_index_of(chat.participants, account, k) implies !(k
            < chat.key_material.len()) by {
            lemma_first_index_unique(chat.participants, account, i, k);
        }
    }
}

/// An account that stands in a list has a first position there.
pub proof fn lemma_first_index_exists(accounts: Seq<AccountId>, account: AccountId, bound: int)
    requires
        0 <= bound < accounts.len(),
        accounts[bound] == account,
    ensures
        exists|i: int| is_first_index_of(accounts, account, i),
    decreases bound,
{
    if exists|j: int| 0 <= j < bound && accounts[j] == account {
        let j = choose|j: int| 0 <= j < bound && accounts[j] == account;
        lemma_first_index_exists(accounts, account, j);
    } else {
        assert(is_first_index_of(accounts, account, bound));
    }
}

/// A chat with one key blob per participant holds a blob for an account
/// exactly when the account is one of its participants.
pub proof fn lemma_key_of_participants(chat: ChatView, account: AccountId)
    requires
        chat.keys_match_participants(),
    ensures
        chat.key_of(account) is Some <==> chat.participants.contains(account),
{
    if chat.participants.contains(account) {
        let bound = choose|j: int|
            0 <= j < chat.participants.len() && chat.participants[j] == account;
        lemma_first_index_exists(chat.participants, account, bound);
        let i = choose|i: int| is_first_index_of(chat.participants, account, i);
        lemma_key_of_first_index(chat, account, i);
    }
}

/// Looking up the key blob of an account in the same chat again gives the
/// same bytes.
pub proof fn lemma_key_lookup_repeatable(
    chat: ChatView,
    account: AccountId,
    first: Seq<u8>,
    second: Seq<u8>,
)
    requires
        chat.key_of(account) == Some(first),
        chat.key_of(account) == Some(second),
    ensures
        first == second,
{
}

/// A chat created from a command that brings one key blob per participant
/// satisfies the invariant: its blobs match its participants, and its log
/// holds exactly the first message, numbered 0, with the counter at 1.
pub proof fn lemma_new_well_formed(command: ChatCreateCommandView, id: nat, now: nat)
    requires
        command.keys_match_participants(),
    ensures
        ChatView::new(command, id, now).keys_match_participants(),
        ChatView::new(command, id, now).counter_matches_log(),
        ChatView::new(command, id, now).log_in_order(),
        ChatView::new(command, id, now).well_formed(),
        ChatView::new(command, id, now).messages.len() == 1,
        ChatView::new(command, id, now).next_message_id == 1,
{
}

/// Appending a message keeps each part of the invariant. The log only grows:
/// the messages it held stay as they were, and the new one takes the number
/// that the counter held, so that no number is used twice and none is left
/// out.
pub proof fn lemma_add_message_well_formed(
    chat: ChatView,
    command: MessageCreateCommandView,
    now: nat,
)
    ensures
        chat.keys_match_participants() ==> chat.add_message(
            command,
            now,
        ).keys_match_participants(),
        chat.counter_matches_log() ==> chat.add_message(command, now).counter_matches_log(),
        chat.well_formed() ==> chat.add_message(command, now).well_formed(),
        chat.add_message(command, now).messages.drop_last() == chat.messages,
        chat.add_message(command, now).messages.last().id == chat.next_message_id,
        chat.add_message(command, now).next_message_id == chat.next_message_id + 1,
{
}

/// A copy of a list of accounts.
fn copy_accounts(accounts: &Vec<AccountId>) -> (copy: Vec<AccountId>)
    ensures
        copy@ == accounts@,
{
    let mut copy: Vec<AccountId> = Vec::new();
    let mut i: usize = 0;
    while i < accounts.len()
        invariant
            i <= accounts.len(),
            copy@ == accounts@.take(i as int),
        decreases accounts.len() - i,
    {
        copy.push(accounts[i]);
        i += 1;
    }
    copy
}

impl Clone for ChatCreateCommand {
    fn clone(&self) -> (copy: Self)
        ensures
            copy@ == self@,
    {
        ChatCreateCommand {
            participants: copy_accounts(&self.participants),
            init_message: self.init_message.clone(),
        }
    }
}

impl Clone for Chat {
    fn clone(&self) -> (copy: Self)
        ensures
            copy@ == self@,
    {
        let messages = self.messages.clone();
        Chat {
            id: self.id,
            participants: copy_accounts(&self.participants),
            encrypted_cypher: copy_blobs(&self.encrypted_cypher),
            messages,
            next_message_id: self.next_message_id,
        }
    }
}

impl Chat {
    /// Creates the chat `id` from `init_chat` and appends its first message,
    /// stamped with `now`.
    pub fn new_at(init_chat: ChatCreateCommand, id: u64, now: u64) -> (chat: Self)
        requires
            init_chat@.keys_match_participants(),
        ensures
            chat@ == ChatView::new(init_chat@, id as nat, now as nat),
            chat@.well_formed(),
    {
        let chat = Chat {
            id,
            participants: init_chat.participants,
            encrypted_cypher: init_chat.init_message.encrypted_cypher,
            messages: Vec::new(),
            next_message_id: 0,
        };
        assert(chat@.messages =~= Seq::empty());
        chat.add_message_at(init_chat.init_message.init_message, now)
    }

    /// Creates the chat `id` from `init_chat` and appends its first message,
    /// stamped with the host's block time. Everything but that timestamp is
    /// determined by the arguments.
    pub fn new(init_chat: ChatCreateCommand, id: u64) -> (chat: Self)
        requires
            init_chat@.keys_match_participants(),
        ensures
            chat@ == ChatView::new(init_chat@, id as nat, chat@.messages[0].timestamp),
            chat@.well_formed(),
    {
        let now = block_timestamp();
        Chat::new_at(init_chat, id, now)
    }

    /// Appends `message` to the log, numbered by the counter and stamped with
    /// `now`, and hands back the updated chat.
    pub fn add_message_at(self, message: MessageCreateCommand, now: u64) -> (updated: Chat)
        requires
            self.next_message_id < u64::MAX,
        ensures
            updated@ == self@.add_message(message@, now as nat),
            self@.well_formed() ==> updated@.well_formed(),
    {
        let mut chat = self;
        chat.messages.push(Message::new_at(message, chat.next_message_id, chat.id, now));
        chat.next_message_id += 1;
        assert(chat@.messages =~= self@.add_message(message@, now as nat).messages);
        chat
    }

    /// Appends `message` to the log, numbered by the counter and stamped with
    /// the host's block time, and hands back the updated chat. Everything but
    /// that timestamp is determined by the arguments.
    pub fn add_message(self, message: MessageCreateCommand) -> (updated: Chat)
        requires
            self.next_message_id < u64::MAX,
        ensures
            updated@ == self@.add_message(message@, updated@.messages.last().timestamp),
            self@.well_formed() ==> updated@.well_formed(),
    {
        let now = block_timestamp();
        self.add_message_at(message, now)
    }

    /// Looks up the key blob of `account`: a copy of the blob that stands
    /// where `account` first stands among the participants, or `None` where
    /// the chat holds no blob for it.
    pub fn find_cypher(&self, account: &AccountId) -> (found: Option<Vec<u8>>)
        ensures
            match found {
                Some(key) => self@.key_of(*account) == Some(key@),
                None => self@.key_of(*account) is None,
            },
    {
        let mut i: usize = 0;
        while i < self.participants.len()
            invariant
                i <= self.participants.len(),
                forall|j: int| 0 <= j < i ==> self.participants@[j] != *account,
            decreases self.participants.len() - i,
        {
            if same_account(&self.participants[i], account) {
                proof {
                    lemma_key_of_first_index(self@, *account, i as int);
                }
                if i < self.encrypted_cypher.len() {
                    let key = self.encrypted_cypher[i].clone();
                    return Some(key);
                } else {
                    return None;
                }
            }
            i += 1;
        }
        None
    }

    /// Hands out the key blob of the participant `account`.
    pub fn get_cypher(self, account: AccountId) -> (key: Vec<u8>)
        requires
            self@.keys_match_participants(),
            self@.participants.contains(account),
        ensures
            self@.key_of(account) == Some(key@),
    {
        proof {
            lemma_key_of_participants(self@, account);
        }
        self.find_cypher(&account).unwrap()
    }
}

} // verus!
