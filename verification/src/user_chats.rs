//! The reverse index: for every account, the chats it takes part in.

use crate::account::same_account;
use ink::primitives::AccountId;
use vstd::prelude::*;

verus! {

/// The chats of one account, in the order in which they were created.
pub struct UserChatsEntry {
    pub account: AccountId,
    pub chats: Vec<u64>,
}

/// A map from accounts to lists of chat identifiers, kept as a list of
/// entries in which no account stands twice.
pub struct UserChats {
    pub entries: Vec<UserChatsEntry>,
}

/// A list of chat identifiers as mathematical numbers.
pub open spec fn chat_ids(chats: Seq<u64>) -> Seq<nat> {
    chats.map_values(|id: u64| id as nat)
}

/// The chats that `index` lists for `account`. An account without an entry
/// takes part in no chat.
pub open spec fn chats_of(index: Map<AccountId, Seq<nat>>, account: AccountId) -> Seq<nat> {
    if index.contains_key(account) {
        index[account]
    } else {
        Seq::empty()
    }
}

/// `i` is a position of `entries` that belongs to `account`.
pub open spec fn is_slot_of(entries: Seq<UserChatsEntry>, account: AccountId, i: int) -> bool {
    0 <= i < entries.len() && entries[i].account == account
}

impl View for UserChats {
    type V = Map<AccountId, Seq<nat>>;

    open spec fn view(&self) -> Map<AccountId, Seq<nat>> {
        Map::new(
            |account: AccountId| exists|i: int| is_slot_of(self.entries@, account, i),
            |account: AccountId|
                chat_ids(
                    self.entries@[choose|i: int| is_slot_of(self.entries@, account, i)].chats@,
                ),
        )
    }
}

impl UserChats {
    /// No account has two entries.
    pub open spec fn well_formed(&self) -> bool {
        forall|i: int, j: int|
            0 <= i < j < self.entries.len() ==> (#[trigger] self.entries[i]).account != (
            #[trigger] self.entries[j]).account
    }

    /// In a well-formed index the entry at position `i` is what the index
    /// holds for the account that stands there.
    pub proof fn lemma_entry(&self, i: int)
        requires
            self.well_formed(),
            0 <= i < self.entries.len(),
        ensures
            self@.contains_key(self.entries[i].account),
            self@[self.entries[i].account] == chat_ids(self.entries[i].chats@),
    {
        let account = self.entries[i].account;
        assert(is_slot_of(self.entries@, account, i));
    }

    /// The index without any entry.
    pub fn new() -> (index: Self)
        ensures
            index@ == Map::<AccountId, Seq<nat>>::empty(),
            index.well_formed(),
    {
        let index = UserChats { entries: Vec::new() };
        index
    }

    /// The position of the entry of `account`, if it has one.
    fn slot(&self, account: &AccountId) -> (found: Option<usize>)
        ensures
            match found {
                Some(i) => is_slot_of(self.entries@, *account, i as int),
                None => forall|i: int| !is_slot_of(self.entries@, *account, i),
            },
    {
        let mut i: usize = 0;
        while i < self.entries.len()
            invariant
                i <= self.entries.len(),
                forall|j: int| 0 <= j < i ==> !is_slot_of(self.entries@, *account, j),
            decreases self.entries.len() - i,
        {
            if same_account(&self.entries[i].account, account) {
                return Some(i);
            }
            i += 1;
        }
        None
    }

    /// A copy of the list of `account`, or `None` where it has no entry.
    pub fn get(&self, account: AccountId) -> (found: Option<Vec<u64>>)
        requires
            self.well_formed(),
        ensures
            match found {
                Some(chats) => self@.contains_key(account) && self@[account] == chat_ids(chats@),
                None => !self@.contains_key(account),
            },
    {
        match self.slot(&account) {
            Some(i) => {
                proof {
                    self.lemma_entry(i as int);
                }
                let chats = self.entries[i].chats.clone();
                Some(chats)
            },
            None => None,
        }
    }

    /// Makes `chats` the list of `account`, in place of the one it had, if any.
    pub fn insert(&mut self, account: AccountId, chats: Vec<u64>)
        requires
            old(self).well_formed(),
        ensures
            final(self).well_formed(),
            final(self)@ == old(self)@.insert(account, chat_ids(chats@)),
    {
        let ghost before = *self;
        let ghost expected = self@.insert(account, chat_ids(chats@));
        match self.slot(&account) {
            Some(i) => {
                self.entries.set(i, UserChatsEntry { account, chats });
                assert forall|a: AccountId| #[trigger]
                    self@.contains_key(a) == expected.contains_key(a) by {
                    if before@.contains_key(a) || a == account {
                        let k = if a == account {
                            i as int
                        } else {
                            choose|k: int| is_slot_of(before.entries@, a, k)
                        };
                        assert(is_slot_of(self.entries@, a, k));
                    }
                    if self@.contains_key(a) {
                        let k = choose|k: int| is_slot_of(self.entries@, a, k);
                        assert(is_slot_of(before.entries@, a, k));
                    }
                }
                assert forall|a: AccountId| #[trigger]
                    self@.contains_key(a) implies self@[a] == expected[a] by {
                    let k = choose|k: int| is_slot_of(self.entries@, a, k);
                    self.lemma_entry(k);
                    if a != account {
                        before.lemma_entry(k);
                    }
                }
            },
            None => {
                self.entries.push(UserChatsEntry { account, chats });
                let ghost last = before.entries@.len() as int;
                assert forall|i: int, j: int| 0 <= i < j < self.entries.len() implies (
                #[trigger] self.entries[i]).account != (#[trigger] self.entries[j]).account by {
                    if j == last {
                        assert(!is_slot_of(before.entries@, account, i));
                    }
                }
                assert forall|a: AccountId| #[trigger]
                    self@.contains_key(a) == expected.contains_key(a) by {
                    if before@.contains_key(a) || a == account {
                        let k = if a == account {
                            last
                        } else {
                            choose|k: int| is_slot_of(before.entries@, a, k)
                        };
                        assert(is_slot_of(self.entries@, a, k));
                    }
                    if self@.contains_key(a) {
                        let k = choose|k: int| is_slot_of(self.entries@, a, k);
                        if k < last {
                            assert(is_slot_of(before.entries@, a, k));
                        }
                    }
                }
                assert forall|a: AccountId| #[trigger]
                    self@.contains_key(a) implies self@[a] == expected[a] by {
                    let k = choose|k: int| is_slot_of(self.entries@, a, k);
                    self.lemma_entry(k);
                    if a != account {
                        before.lemma_entry(k);
                    } else if k < last {
                        assert(is_slot_of(before.entries@, a, k));
                    }
                }
            },
        }
    }
}

/// The list of an account after it joined the chat `chat_id`: the list it
/// had, or the empty list where it had none, with `chat_id` at its end.
pub fn with_chat(existing: Option<Vec<u64>>, chat_id: u64) -> (chats: Vec<u64>)
    ensures
        chat_ids(chats@) == match existing {
            Some(before) => chat_ids(before@),
            None => Seq::empty(),
        }.push(chat_id as nat),
{
    match existing {
        None => {
            let mut chats = Vec::<u64>::new();
            chats.push(chat_id);
            chats
        },
        Some(before) => {
            let mut new_chats = before;
            new_chats.push(chat_id);
            new_chats
        },
    }
}

} // verus!
