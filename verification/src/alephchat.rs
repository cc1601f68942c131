//! The registry: all chats, the reverse index from accounts to their chats,
//! and the counter that numbers new chats.

use crate::chat::{
    lemma_add_message_well_formed, lemma_new_well_formed, Chat, ChatCreateCommand,
    ChatCreateCommandView, ChatView,
};
use crate::clock::block_timestamp;
use crate::message::{Message, MessageCreateCommand, MessageCreateCommandView, MessageView};
use crate::user_chats::{chat_ids, chats_of, with_chat, UserChats};
use ink::primitives::AccountId;
use std::collections::HashMap;
use vstd::prelude::*;

verus! {

broadcast use vstd::std_specs::hash::group_hash_axioms;

/// The registry of chats.
pub struct AlephChat {
    /// Every chat ever created, under its identifier.
    pub chats: HashMap<u64, Chat>,
    /// For every account, the chats it takes part in, oldest first.
    pub user_chats: UserChats,
    /// The identifier that the next chat gets.
    pub next_chat_id: u64,
}

/// The mathematical value of an [`AlephChat`].
pub struct AlephChatView {
    pub chats: Map<nat, ChatView>,
    pub user_chats: Map<AccountId, Seq<nat>>,
    pub next_chat_id: nat,
}

/// The contents of a table of chats.
pub open spec fn chat_views(chats: Map<u64, Chat>) -> Map<nat, ChatView> {
    Map::new(
        |id: nat| id <= u64::MAX && chats.contains_key(id as u64),
        |id: nat| chats[id as u64]@,
    )
}

impl View for AlephChat {
    type V = AlephChatView;

    open spec fn view(&self) -> AlephChatView {
        AlephChatView {
            chats: chat_views(self.chats@),
            user_chats: self.user_chats@,
            next_chat_id: self.next_chat_id as nat,
        }
    }
}

/// How often `account` stands in `accounts`.
pub open spec fn occurrences(accounts: Seq<AccountId>, account: AccountId) -> nat
    decreases accounts.len(),
{
    if accounts.len() == 0 {
        0
    } else {
        occurrences(accounts.drop_last(), account) + if accounts.last() == account {
            1nat
        } else {
            0nat
        }
    }
}

/// The list that holds `id` `count` times.
pub open spec fn repeated(id: nat, count: nat) -> Seq<nat> {
    Seq::new(count, |i: int| id)
}

/// The reverse index after the chat `id` with the given participants was
/// entered into `index`: every participant's list has `id` at its end, once
/// for each time the participant is named, and an account that had no list
/// gets one.
pub open spec fn indexed(
    index: Map<AccountId, Seq<nat>>,
    participants: Seq<AccountId>,
    id: nat,
) -> Map<AccountId, Seq<nat>> {
    Map::new(
        |account: AccountId| index.contains_key(account) || participants.contains(account),
        |account: AccountId|
            chats_of(index, account) + repeated(id, occurrences(participants, account)),
    )
}

/// The chats among the first `upto` of `chats` that name `account` as a
/// participant, in the order of their creation.
pub open spec fn memberships(chats: Map<nat, ChatView>, upto: nat, account: AccountId) -> Seq<nat>
    decreases upto,
{
    if upto == 0 {
        Seq::empty()
    } else {
        let id = (upto - 1) as nat;
        memberships(chats, id, account) + repeated(
            id,
            occurrences(chats[id].participants, account),
        )
    }
}

impl AlephChatView {
    /// The registry without any chat.
    pub open spec fn empty() -> AlephChatView {
        AlephChatView { chats: Map::empty(), user_chats: Map::empty(), next_chat_id: 0 }
    }

    /// The registry after a chat was created from `command` when the clock
    /// showed `now`: the chat stands under the identifier that the counter
    /// held, every participant's list ends with that identifier, and the
    /// counter has advanced by one.
    pub open spec fn init_chat(self, command: ChatCreateCommandView, now: nat) -> AlephChatView {
        AlephChatView {
            chats: self.chats.insert(
                self.next_chat_id,
                ChatView::new(command, self.next_chat_id, now),
            ),
            user_chats: indexed(self.user_chats, command.participants, self.next_chat_id),
            next_chat_id: self.next_chat_id + 1,
        }
    }

    /// The chat `chat_id` exists and its log can take one more message.
    pub open spec fn accepts_message(self, chat_id: nat) -> bool {
        self.chats.contains_key(chat_id) && self.chats[chat_id].next_message_id < u64::MAX
    }

    /// The registry after `command` was appended to the log of the chat
    /// `chat_id` when the clock showed `now`. Nothing else changes.
    pub open spec fn add_message(
        self,
        chat_id: nat,
        command: MessageCreateCommandView,
        now: nat,
    ) -> AlephChatView {
        AlephChatView {
            chats: self.chats.insert(chat_id, self.chats[chat_id].add_message(command, now)),
            ..self
        }
    }

    /// The invariant of the registry: the chats are those numbered below the
    /// counter, each is well-formed and stands under its own identifier, and
    /// the reverse index lists for every account exactly the chats that name
    /// it, in the order of their creation, with no empty list stored.
    pub open spec fn well_formed(self) -> bool {
        &&& forall|id: nat| self.chats.contains_key(id) <==> id < self.next_chat_id
        &&& forall|id: nat| #[trigger]
            self.chats.contains_key(id) ==> self.chats[id].id == id && self.chats[id].well_formed()
        &&& forall|account: AccountId| #[trigger]
            chats_of(self.user_chats, account) == memberships(
                self.chats,
                self.next_chat_id,
                account,
            )
        &&& forall|account: AccountId| #[trigger]
            self.user_chats.contains_key(account) ==> self.user_chats[account].len() > 0
    }
}

/// An account stands in a list exactly when it occurs there at least once.
pub proof fn lemma_occurrences_contains(accounts: Seq<AccountId>, account: AccountId)
    ensures
        occurrences(accounts, account) > 0 <==> accounts.contains(account),
    decreases accounts.len(),
{
    if accounts.len() > 0 {
        lemma_occurrences_contains(accounts.drop_last(), account);
        if accounts.contains(account) {
            let i = choose|i: int| 0 <= i < accounts.len() && accounts[i] == account;
            if i < accounts.len() - 1 {
                assert(accounts.drop_last()[i] == account);
            }
        }
        if accounts.drop_last().contains(account) {
            let i = choose|i: int|
                0 <= i < accounts.drop_last().len() && accounts.drop_last()[i] == account;
            assert(accounts[i] == account);
        }
    }
}

/// An account that stands in a list without duplicates occurs there once.
pub proof fn lemma_occurrences_no_duplicates(accounts: Seq<AccountId>, account: AccountId)
    requires
        accounts.no_duplicates(),
        accounts.contains(account),
    ensures
        occurrences(accounts, account) == 1,
    decreases accounts.len(),
{
    lemma_occurrences_contains(accounts.drop_last(), account);
    if accounts.last() == account {
        if accounts.drop_last().contains(account) {
            let i = choose|i: int|
                0 <= i < accounts.drop_last().len() && accounts.drop_last()[i] == account;
            assert(accounts[i] == accounts[accounts.len() - 1]);
        }
    } else {
        let i = choose|i: int| 0 <= i < accounts.len() && accounts[i] == account;
        assert(accounts.drop_last()[i] == account);
        lemma_occurrences_no_duplicates(accounts.drop_last(), account);
    }
}

/// Which chats an account belongs to depends only on the participants of
/// the chats.
pub proof fn lemma_memberships_by_participants(
    chats: Map<nat, ChatView>,
    others: Map<nat, ChatView>,
    upto: nat,
    account: AccountId,
)
    requires
        forall|id: nat|
            id < upto ==> (#[trigger] chats[id]).participants == others[id].participants,
    ensures
        memberships(chats, upto, account) == memberships(others, upto, account),
    decreases upto,
{
    if upto > 0 {
        let id = (upto - 1) as nat;
        lemma_memberships_by_participants(chats, others, id, account);
    }
}

/// Every chat that an account belongs to among the first `upto` is numbered
/// below `upto`.
pub proof fn lemma_memberships_below(chats: Map<nat, ChatView>, upto: nat, account: AccountId)
    ensures
        forall|i: int|
            0 <= i < memberships(chats, upto, account).len() ==> memberships(
                chats,
                upto,
                account,
            )[i] < upto,
    decreases upto,
{
    if upto > 0 {
        let id = (upto - 1) as nat;
        lemma_memberships_below(chats, id, account);
        let earlier = memberships(chats, id, account);
        let added = repeated(id, occurrences(chats[id].participants, account));
        assert forall|i: int| 0 <= i < (earlier + added).len() implies (earlier + added)[i]
            < upto by {
            if i < earlier.len() {
                assert((earlier + added)[i] == earlier[i]);
            } else {
                assert((earlier + added)[i] == added[i - earlier.len()]);
            }
        }
    }
}

/// What the index holds for an account after a chat was entered: the list
/// the account had, followed by the new identifier once for each time the
/// account is named among the participants.
pub proof fn lemma_chats_of_indexed(
    index: Map<AccountId, Seq<nat>>,
    participants: Seq<AccountId>,
    id: nat,
    account: AccountId,
)
    ensures
        chats_of(indexed(index, participants, id), account) == chats_of(index, account) + repeated(
            id,
            occurrences(participants, account),
        ),
{
    lemma_occurrences_contains(participants, account);
}

/// Entering a chat for one more participant appends the identifier to the
/// list of that participant and leaves the other lists alone.
pub proof fn lemma_indexed_step(
    index: Map<AccountId, Seq<nat>>,
    participants: Seq<AccountId>,
    i: int,
    id: nat,
)
    requires
        0 <= i < participants.len(),
    ensures
        indexed(index, participants.take(i + 1), id) == indexed(
            index,
            participants.take(i),
            id,
        ).insert(
            participants[i],
            chats_of(indexed(index, participants.take(i), id), participants[i]).push(id),
        ),
{
    let shorter = participants.take(i);
    let longer = participants.take(i + 1);
    let joined = participants[i];
    let stepped = indexed(index, shorter, id).insert(
        joined,
        chats_of(indexed(index, shorter, id), joined).push(id),
    );
    assert(longer.drop_last() =~= shorter);
    assert forall|account: AccountId|
        indexed(index, longer, id).contains_key(account) == stepped.contains_key(account) by {
        lemma_occurrences_contains(shorter, account);
        lemma_occurrences_contains(longer, account);
    }
    assert forall|account: AccountId| indexed(index, longer, id).contains_key(account) implies (
    #[trigger] indexed(index, longer, id)[account]) == stepped[account] by {
        lemma_chats_of_indexed(index, shorter, id, account);
        lemma_occurrences_contains(shorter, account);
    }
}

/// Creating a chat keeps the registry well-formed.
pub proof fn lemma_init_chat_well_formed(
    registry: AlephChatView,
    command: ChatCreateCommandView,
    now: nat,
)
    requires
        registry.well_formed(),
        command.keys_match_participants(),
    ensures
        registry.init_chat(command, now).well_formed(),
{
    let after = registry.init_chat(command, now);
    let id = registry.next_chat_id;
    lemma_new_well_formed(command, id, now);
    assert forall|account: AccountId| #[trigger]
        chats_of(after.user_chats, account) == memberships(
            after.chats,
            after.next_chat_id,
            account,
        ) by {
        lemma_memberships_by_participants(after.chats, registry.chats, id, account);
        lemma_chats_of_indexed(registry.user_chats, command.participants, id, account);
    }
    assert forall|account: AccountId| #[trigger]
        after.user_chats.contains_key(account) implies after.user_chats[account].len() > 0 by {
        lemma_occurrences_contains(command.participants, account);
    }
}

/// Appending a message to a chat keeps the registry well-formed.
pub proof fn lemma_registry_add_message_well_formed(
    registry: AlephChatView,
    chat_id: nat,
    command: MessageCreateCommandView,
    now: nat,
)
    requires
        registry.well_formed(),
        registry.chats.contains_key(chat_id),
    ensures
        registry.add_message(chat_id, command, now).well_formed(),
{
    let after = registry.add_message(chat_id, command, now);
    lemma_add_message_well_formed(registry.chats[chat_id], command, now);
    assert forall|account: AccountId| #[trigger]
        chats_of(after.user_chats, account) == memberships(
            after.chats,
            after.next_chat_id,
            account,
        ) by {
        lemma_memberships_by_participants(
            after.chats,
            registry.chats,
            registry.next_chat_id,
            account,
        );
    }
}

/// Creating a chat appends its identifier, which no list held before, to
/// the list of every participant: once where the participant is named once,
/// and in general once for each time it is named. The lists of all other
/// accounts stay as they were.
pub proof fn lemma_init_chat_index(
    registry: AlephChatView,
    command: ChatCreateCommandView,
    now: nat,
    account: AccountId,
)
    requires
        registry.well_formed(),
    ensures
        chats_of(registry.init_chat(command, now).user_chats, account) == chats_of(
            registry.user_chats,
            account,
        ) + repeated(registry.next_chat_id, occurrences(command.participants, account)),
        !chats_of(registry.user_chats, account).contains(registry.next_chat_id),
        command.participants.contains(account) && command.participants.no_duplicates() ==> chats_of(
            registry.init_chat(command, now).user_chats,
            account,
        ) == chats_of(registry.user_chats, account).push(registry.next_chat_id),
        !command.participants.contains(account) ==> chats_of(
            registry.init_chat(command, now).user_chats,
            account,
        ) == chats_of(registry.user_chats, account),
{
    let id = registry.next_chat_id;
    lemma_chats_of_indexed(registry.user_chats, command.participants, id, account);
    lemma_occurrences_contains(command.participants, account);
    lemma_memberships_below(registry.chats, id, account);
    if command.participants.contains(account) && command.participants.no_duplicates() {
        lemma_occurrences_no_duplicates(command.participants, account);
    }
}

impl AlephChat {
    /// The registry holds the invariant of its value and its index has no
    /// account twice.
    pub open spec fn well_formed(&self) -> bool {
        self.user_chats.well_formed() && self@.well_formed()
    }

    /// The registry without any chat.
    pub fn new() -> (registry: Self)
        ensures
            registry@ == AlephChatView::empty(),
            registry.well_formed(),
    {
        let registry = AlephChat {
            chats: HashMap::new(),
            user_chats: UserChats::new(),
            next_chat_id: 0,
        };
        assert(registry@.chats =~= Map::<nat, ChatView>::empty());
        registry
    }

    /// Creates a chat from `init_chat`, with its first message stamped with
    /// `now`, enters it into the lists of its participants and hands back its
    /// identifier.
    pub fn init_chat_at(&mut self, init_chat: ChatCreateCommand, now: u64) -> (chat_id: u64)
        requires
            old(self).well_formed(),
            old(self).next_chat_id < u64::MAX,
            init_chat@.keys_match_participants(),
        ensures
            final(self).well_formed(),
            chat_id == old(self).next_chat_id,
            final(self)@ == old(self)@.init_chat(init_chat@, now as nat),
    {
        let ghost before = *self;
        let chat = Chat::new_at(init_chat, self.next_chat_id, now);
        self.next_chat_id += 1;
        let mut i: usize = 0;
        while i < chat.participants.len()
            invariant
                i <= chat.participants.len(),
                self.user_chats.well_formed(),
                self.user_chats@ == indexed(
                    before.user_chats@,
                    chat.participants@.take(i as int),
                    chat.id as nat,
                ),
                self.chats == before.chats,
                self.next_chat_id == before.next_chat_id + 1,
            decreases chat.participants.len() - i,
        {
            let account = chat.participants[i];
            let chats = with_chat(self.user_chats.get(account), chat.id);
            self.user_chats.insert(account, chats);
            proof {
                lemma_indexed_step(
                    before.user_chats@,
                    chat.participants@,
                    i as int,
                    chat.id as nat,
                );
            }
            i += 1;
        }
        let chat_id = chat.id;
        self.chats.insert(chat_id, chat);
        proof {
            assert(chat.participants@.take(chat.participants@.len() as int)
                =~= chat.participants@);
            assert(self@.chats =~= before@.chats.insert(chat_id as nat, chat@));
            lemma_init_chat_well_formed(before@, init_chat@, now as nat);
        }
        chat_id
    }

    /// Creates a chat from `init_chat`, with its first message stamped with
    /// the host's block time, enters it into the lists of its participants
    /// and hands back its identifier. Everything but that timestamp is
    /// determined by the arguments and the registry.
    pub fn init_chat(&mut self, init_chat: ChatCreateCommand) -> (chat_id: u64)
        requires
            old(self).well_formed(),
            old(self).next_chat_id < u64::MAX,
            init_chat@.keys_match_participants(),
        ensures
            final(self).well_formed(),
            chat_id == old(self).next_chat_id,
            final(self)@ == old(self)@.init_chat(
                init_chat@,
                final(self)@.chats[chat_id as nat].messages[0].timestamp,
            ),
    {
        let now = block_timestamp();
        self.init_chat_at(init_chat, now)
    }

    /// Creates a chat as [`AlephChat::init_chat_at`] does, if `init_chat`
    /// brings one key blob per participant and an identifier is left.
    /// Otherwise the registry stays as it is and the answer is `None`.
    pub fn try_init_chat_at(&mut self, init_chat: ChatCreateCommand, now: u64) -> (created: Option<
        u64,
    >)
        requires
            old(self).well_formed(),
        ensures
            final(self).well_formed(),
            created is Some <==> init_chat@.keys_match_participants() && old(self)@.next_chat_id
                < u64::MAX,
            match created {
                Some(chat_id) => {
                    &&& chat_id == old(self).next_chat_id
                    &&& final(self)@ == old(self)@.init_chat(init_chat@, now as nat)
                },
                None => *final(self) == *old(self),
            },
    {
        if init_chat.participants.len() != init_chat.init_message.encrypted_cypher.len()
            || self.next_chat_id == u64::MAX {
            None
        } else {
            Some(self.init_chat_at(init_chat, now))
        }
    }

    /// Appends `init_message`, stamped with `now`, to the log of the chat
    /// `chat_id` and hands back a copy of the message as it was stored.
    pub fn add_message_at(
        &mut self,
        chat_id: u64,
        init_message: MessageCreateCommand,
        now: u64,
    ) -> (message: Message)
        requires
            old(self).well_formed(),
            old(self)@.accepts_message(chat_id as nat),
        ensures
            final(self).well_formed(),
            final(self)@ == old(self)@.add_message(chat_id as nat, init_message@, now as nat),
            message@ == MessageView::stamped(
                init_message@,
                old(self)@.chats[chat_id as nat].next_message_id,
                chat_id as nat,
                now as nat,
            ),
            message@ == final(self)@.chats[chat_id as nat].messages.last(),
    {
        let ghost before = *self;
        let chat = self.chats.remove(&chat_id).unwrap();
        assert(chat.messages.len() == chat@.messages.len() == chat.next_message_id);
        let next_message_id = chat.next_message_id as usize;
        let updated_chat = chat.add_message_at(init_message, now);
        let message = updated_chat.messages[next_message_id].clone();
        assert(message@ == updated_chat@.messages[next_message_id as int]);
        self.chats.insert(chat_id, updated_chat);
        proof {
            assert(self@.chats =~= before@.chats.insert(chat_id as nat, updated_chat@));
            lemma_registry_add_message_well_formed(
                before@,
                chat_id as nat,
                init_message@,
                now as nat,
            );
        }
        message
    }

    /// Appends `init_message`, stamped with the host's block time, to the log
    /// of the chat `chat_id` and hands back a copy of the message as it was
    /// stored. Everything but that timestamp is determined by the arguments
    /// and the registry.
    pub fn add_message(&mut self, chat_id: u64, init_message: MessageCreateCommand) -> (message:
        Message)
        requires
            old(self).well_formed(),
            old(self)@.accepts_message(chat_id as nat),
        ensures
            final(self).well_formed(),
            final(self)@ == old(self)@.add_message(
                chat_id as nat,
                init_message@,
                message@.timestamp,
            ),
            message@ == MessageView::stamped(
                init_message@,
                old(self)@.chats[chat_id as nat].next_message_id,
                chat_id as nat,
                message@.timestamp,
            ),
            message@ == final(self)@.chats[chat_id as nat].messages.last(),
    {
        let now = block_timestamp();
        self.add_message_at(chat_id, init_message, now)
    }

    /// Appends `init_message`, stamped with `now`, to the log of the chat
    /// `chat_id` if there is such a chat and its log can take one more
    /// message. Otherwise the registry stays as it is and the answer is
    /// `None`.
    pub fn try_add_message_at(
        &mut self,
        chat_id: u64,
        init_message: MessageCreateCommand,
        now: u64,
    ) -> (posted: Option<Message>)
        requires
            old(self).well_formed(),
        ensures
            final(self).well_formed(),
            posted is Some <==> old(self)@.accepts_message(chat_id as nat),
            match posted {
                Some(message) => {
                    &&& final(self)@ == old(self)@.add_message(
                        chat_id as nat,
                        init_message@,
                        now as nat,
                    )
                    &&& message@ == MessageView::stamped(
                        init_message@,
                        old(self)@.chats[chat_id as nat].next_message_id,
                        chat_id as nat,
                        now as nat,
                    )
                },
                None => *final(self) == *old(self),
            },
    {
        let accepts = match self.chats.get(&chat_id) {
            Some(chat) => chat.next_message_id < u64::MAX,
            None => false,
        };
        if accepts {
            Some(self.add_message_at(chat_id, init_message, now))
        } else {
            None
        }
    }
}

} // verus!
