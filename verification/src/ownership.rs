//! The ownership ledger: user profiles, items and their owners, and the
//! claim codes by which an item passes from one owner to the next.

use crate::assoc::{
    as_map, index_of_key, keys_distinct, lemma_as_map_absent, lemma_as_map_entry,
    lemma_as_map_push, lemma_as_map_remove, lemma_as_map_witness,
};
use crate::hashing::{item_hash, item_hash_of, u64_to_word, u64_word};
use crate::primitives::{all_zero, Address, FixedBytes32, U256};
use crate::types::{
    byte_len, clone_strings, fields_view, item_tuple, reports, set_item, strings_view, EriError,
    Event, EventView, Item, ItemFields, ItemView,
};
use vstd::prelude::*;

verus! {

/// A registered user.
#[derive(Debug)]
pub struct UserProfile {
    pub user_address: Address,
    pub username: String,
    pub registered: bool,
    pub registered_at: U256,
}

/// What a user profile says.
pub struct UserProfileView {
    pub user_address: Seq<u8>,
    pub username: Seq<char>,
    pub registered: bool,
    pub registered_at: Seq<u8>,
}

impl View for UserProfile {
    type V = UserProfileView;

    open spec fn view(&self) -> UserProfileView {
        UserProfileView {
            user_address: self.user_address@,
            username: self.username@,
            registered: self.registered,
            registered_at: self.registered_at@,
        }
    }
}

/// A pending transfer: the item as it stood when the code was made, and
/// the address that may accept it.
pub struct ClaimCode {
    pub item_hash: FixedBytes32,
    pub recipient: Address,
    pub item: Item,
}

/// What a pending transfer says.
pub struct ClaimView {
    pub recipient: Seq<u8>,
    pub item: ItemView,
}

impl View for ClaimCode {
    type V = ClaimView;

    open spec fn view(&self) -> ClaimView {
        ClaimView { recipient: self.recipient@, item: self.item@ }
    }
}

/// The ownership ledger.
pub struct Ownership {
    authenticity: Address,
    owner: Address,
    users: Vec<UserProfile>,
    items: Vec<Item>,
    my_items: Vec<Item>,
    claims: Vec<ClaimCode>,
}

/// The state of the ownership ledger.
pub struct OwnershipView {
    /// The only address that may create items; null until it is set.
    pub authenticity: Seq<u8>,
    /// The address that administers the ledger.
    pub owner: Seq<u8>,
    /// The profile under each username.
    pub users: Map<Seq<char>, UserProfileView>,
    /// The username of each registered address.
    pub usernames: Map<Seq<u8>, Seq<char>>,
    /// The record of each item, by item id. Its `owner` field is the
    /// item's one owner.
    pub items: Map<Seq<char>, ItemView>,
    /// The same records as a list, in the order in which they came to
    /// their present owners.
    pub item_list: Seq<ItemView>,
    /// The pending transfer under each claim code.
    pub claims: Map<Seq<u8>, ClaimView>,
}

/// Where an item stands between creation and transfer.
pub enum ItemState {
    /// No item has the id.
    Unknown,
    /// The item is with its owner and no claim code is pending for it.
    Owned { owner: Seq<u8> },
    /// The item is still with its owner, and `recipient` may accept it
    /// under the claim code `item_hash`.
    ClaimPending { owner: Seq<u8>, item_hash: Seq<u8>, recipient: Seq<u8> },
}

/// Item records keyed by their ids.
pub open spec fn list_entries(list: Seq<ItemView>) -> Seq<(Seq<char>, ItemView)> {
    Seq::new(list.len(), |i: int| (list[i].item_id, list[i]))
}

/// The item as it is once `owner` has it.
pub open spec fn owned_by(item: ItemView, owner: Seq<u8>) -> ItemView {
    ItemView { owner: owner, ..item }
}

/// The test that picks the items of one owner.
pub open spec fn held_by(owner: Seq<u8>) -> spec_fn(ItemView) -> bool {
    |item: ItemView| item.owner == owner
}

/// The list without the record of `item_id`.
pub open spec fn without_item(list: Seq<ItemView>, item_id: Seq<char>) -> Seq<ItemView> {
    list.remove(index_of_key(list_entries(list), item_id))
}

impl OwnershipView {
    /// The owner recorded for each item id.
    pub open spec fn owner_by_id(self) -> Map<Seq<char>, Seq<u8>> {
        Map::new(|id: Seq<char>| self.items.contains_key(id), |id: Seq<char>| self.items[id].owner)
    }

    /// The items that an address holds, by item id.
    pub open spec fn owned_items(self, owner: Seq<u8>) -> Map<Seq<char>, ItemView> {
        Map::new(
            |id: Seq<char>| self.items.contains_key(id) && self.items[id].owner == owner,
            |id: Seq<char>| self.items[id],
        )
    }

    /// The items that an address holds, in the order in which it got them.
    pub open spec fn my_items(self, owner: Seq<u8>) -> Seq<ItemView> {
        self.item_list.filter(held_by(owner))
    }

    /// Where the item of an id stands. A claim code is pending for an
    /// item where the content hash of the item, as it is now, leads to a
    /// pending transfer of this item.
    pub open spec fn item_state(self, item_id: Seq<char>) -> ItemState {
        if !self.items.contains_key(item_id) {
            ItemState::Unknown
        } else {
            let item = self.items[item_id];
            let hash = item_hash_of(item);
            if self.claims.contains_key(hash) && self.claims[hash].item.item_id == item_id {
                ItemState::ClaimPending {
                    owner: item.owner,
                    item_hash: hash,
                    recipient: self.claims[hash].recipient,
                }
            } else {
                ItemState::Owned { owner: item.owner }
            }
        }
    }

    /// Whether the address has a user profile.
    pub open spec fn registered(self, address: Seq<u8>) -> bool {
        self.usernames.contains_key(address)
    }

    /// Whether the address owns the item.
    pub open spec fn owns(self, address: Seq<u8>, item_id: Seq<char>) -> bool {
        self.items.contains_key(item_id) && self.items[item_id].owner == address
    }

    /// What holds of every state that the operations reach.
    ///
    /// Usernames and addresses name each other; every item has its id and
    /// an owner; the list holds each item once, as the map has it; and
    /// every pending transfer is keyed by the hash of an item as it now
    /// stands, and goes to another address than its owner.
    pub open spec fn consistent(self) -> bool {
        &&& forall|name: Seq<char>| #[trigger]
            self.users.contains_key(name) ==> {
                &&& self.users[name].username == name
                &&& self.users[name].registered
                &&& !all_zero(self.users[name].user_address)
                &&& byte_len(name) >= 3
                &&& self.usernames.contains_key(self.users[name].user_address)
                &&& self.usernames[self.users[name].user_address] == name
            }
        &&& forall|address: Seq<u8>| #[trigger]
            self.usernames.contains_key(address) ==> {
                &&& self.users.contains_key(self.usernames[address])
                &&& self.users[self.usernames[address]].user_address == address
            }
        &&& forall|id: Seq<char>| #[trigger]
            self.items.contains_key(id) ==> {
                &&& self.items[id].item_id == id
                &&& !all_zero(self.items[id].owner)
            }
        &&& keys_distinct(list_entries(self.item_list))
        &&& as_map(list_entries(self.item_list)) == self.items
        &&& forall|hash: Seq<u8>| #[trigger]
            self.claims.contains_key(hash) ==> {
                &&& hash == item_hash_of(self.claims[hash].item)
                &&& self.items.contains_key(self.claims[hash].item.item_id)
                &&& self.items[self.claims[hash].item.item_id] == self.claims[hash].item
                &&& !all_zero(self.claims[hash].recipient)
                &&& self.claims[hash].recipient != self.claims[hash].item.owner
            }
    }

    /// Why a change of the item-creating address is refused, if it is.
    pub open spec fn set_authenticity_error(self, caller: Seq<u8>, address: Seq<u8>) -> Option<
        EriError,
    > {
        if !all_zero(self.authenticity) {
            Some(EriError::Unauthorized)
        } else if all_zero(address) {
            Some(EriError::AddressZero)
        } else if caller != self.owner {
            Some(EriError::OnlyOwner)
        } else {
            None
        }
    }

    /// The state after a change of the item-creating address was asked
    /// for.
    pub open spec fn set_authenticity_post(self, caller: Seq<u8>, address: Seq<u8>) -> OwnershipView {
        if self.set_authenticity_error(caller, address) is Some {
            self
        } else {
            OwnershipView { authenticity: address, ..self }
        }
    }

    /// Why a user registration is refused, if it is.
    pub open spec fn user_registers_error(self, caller: Seq<u8>, username: Seq<char>) -> Option<
        EriError,
    > {
        if all_zero(self.authenticity) {
            Some(EriError::AuthenticityNotSet)
        } else if all_zero(caller) {
            Some(EriError::AddressZero)
        } else if byte_len(username) < 3 {
            Some(EriError::BadUsername)
        } else if self.users.contains_key(username) {
            Some(EriError::NotAvailable)
        } else if self.usernames.contains_key(caller) {
            Some(EriError::AlreadyRegistered)
        } else {
            None
        }
    }

    /// The state after `caller` asked for `username` at `time`.
    pub open spec fn user_registers_post(
        self,
        caller: Seq<u8>,
        username: Seq<char>,
        time: u64,
    ) -> OwnershipView {
        if self.user_registers_error(caller, username) is Some {
            self
        } else {
            OwnershipView {
                users: self.users.insert(
                    username,
                    UserProfileView {
                        user_address: caller,
                        username: username,
                        registered: true,
                        registered_at: u64_word(time),
                    },
                ),
                usernames: self.usernames.insert(caller, username),
                ..self
            }
        }
    }

    /// Why the creation of an item for `user` is refused, if it is.
    /// `owner` is the manufacturer that the certificate names.
    pub open spec fn create_item_error(
        self,
        caller: Seq<u8>,
        user: Seq<u8>,
        unique_id: Seq<char>,
        owner: Seq<u8>,
    ) -> Option<EriError> {
        if all_zero(self.authenticity) {
            Some(EriError::AuthenticityNotSet)
        } else if all_zero(caller) || all_zero(user) {
            Some(EriError::AddressZero)
        } else if !self.registered(user) {
            Some(EriError::NotRegistered)
        } else if caller != self.authenticity {
            Some(EriError::Unauthorized)
        } else if all_zero(owner) {
            Some(EriError::AddressZero)
        } else if self.items.contains_key(unique_id) {
            Some(EriError::AlreadyClaimed)
        } else {
            None
        }
    }

    /// The state after the creation of `item` was asked for: the map and
    /// the list gain the item together, or nothing changes.
    pub open spec fn create_item_post(
        self,
        caller: Seq<u8>,
        owner: Seq<u8>,
        item: ItemView,
    ) -> OwnershipView {
        if self.create_item_error(caller, item.owner, item.item_id, owner) is Some {
            self
        } else {
            OwnershipView {
                items: self.items.insert(item.item_id, item),
                item_list: self.item_list.push(item),
                ..self
            }
        }
    }

    /// Why a claim code is refused, if it is.
    pub open spec fn generate_error(
        self,
        caller: Seq<u8>,
        item_id: Seq<char>,
        recipient: Seq<u8>,
    ) -> Option<EriError> {
        if all_zero(caller) || all_zero(recipient) {
            Some(EriError::AddressZero)
        } else if all_zero(self.authenticity) {
            Some(EriError::AuthenticityNotSet)
        } else if !self.registered(caller) {
            Some(EriError::NotRegistered)
        } else if !self.owns(caller, item_id) {
            Some(EriError::OnlyOwner)
        } else if caller == recipient {
            Some(EriError::CannotGenerateForSelf)
        } else if self.claims.contains_key(item_hash_of(self.items[item_id])) {
            Some(EriError::ClaimAlreadyOutstanding)
        } else {
            None
        }
    }

    /// The state after a claim code was asked for: the code is pending
    /// for the recipient with the item as it stands, or nothing changes.
    pub open spec fn generate_post(
        self,
        caller: Seq<u8>,
        item_id: Seq<char>,
        recipient: Seq<u8>,
    ) -> OwnershipView {
        if self.generate_error(caller, item_id, recipient) is Some {
            self
        } else {
            OwnershipView {
                claims: self.claims.insert(
                    item_hash_of(self.items[item_id]),
                    ClaimView { recipient: recipient, item: self.items[item_id] },
                ),
                ..self
            }
        }
    }

    /// Why the acceptance of a claim code is refused, if it is. Only the
    /// recipient that the code was made for may accept it.
    pub open spec fn accept_error(self, caller: Seq<u8>, hash: Seq<u8>) -> Option<EriError> {
        if all_zero(self.authenticity) {
            Some(EriError::AuthenticityNotSet)
        } else if all_zero(caller) {
            Some(EriError::AddressZero)
        } else if !self.registered(caller) {
            Some(EriError::NotRegistered)
        } else if !self.claims.contains_key(hash) || self.claims[hash].recipient != caller {
            Some(EriError::Unauthorized)
        } else {
            None
        }
    }

    /// The state after the acceptance of a claim code was asked for: the
    /// item belongs to the caller in the map, has left its place in the
    /// list and stands at the list's end, and the code is gone; or nothing
    /// changes.
    pub open spec fn accept_post(self, caller: Seq<u8>, hash: Seq<u8>) -> OwnershipView {
        if self.accept_error(caller, hash) is Some {
            self
        } else {
            let item = self.claims[hash].item;
            OwnershipView {
                items: self.items.insert(item.item_id, owned_by(item, caller)),
                item_list: without_item(self.item_list, item.item_id).push(owned_by(item, caller)),
                claims: self.claims.remove(hash),
                ..self
            }
        }
    }

    /// Why the revocation of a claim code is refused, if it is.
    pub open spec fn revoke_error(self, caller: Seq<u8>, hash: Seq<u8>) -> Option<EriError> {
        if all_zero(self.authenticity) {
            Some(EriError::AuthenticityNotSet)
        } else if all_zero(caller) {
            Some(EriError::AddressZero)
        } else if !self.registered(caller) {
            Some(EriError::NotRegistered)
        } else if !self.claims.contains_key(hash) {
            Some(EriError::DoesNotExist)
        } else if self.claims[hash].item.owner != caller {
            Some(EriError::OnlyOwner)
        } else {
            None
        }
    }

    /// The state after the revocation of a claim code was asked for: the
    /// code is gone and the item is where it was, or nothing changes.
    pub open spec fn revoke_post(self, caller: Seq<u8>, hash: Seq<u8>) -> OwnershipView {
        if self.revoke_error(caller, hash) is Some {
            self
        } else {
            OwnershipView { claims: self.claims.remove(hash), ..self }
        }
    }
}

/// The views of item records.
spec fn item_views(items: Seq<Item>) -> Seq<ItemView> {
    Seq::new(items.len(), |i: int| items[i]@)
}

/// The items that tuples of fields describe.
pub open spec fn fields_views(list: Seq<ItemFields>) -> Seq<ItemView> {
    Seq::new(list.len(), |i: int| fields_view(list[i]))
}

/// Item records keyed by their ids.
spec fn items_by_id(items: Seq<Item>) -> Seq<(Seq<char>, ItemView)> {
    list_entries(item_views(items))
}

/// Profiles keyed by username.
spec fn users_by_name(users: Seq<UserProfile>) -> Seq<(Seq<char>, UserProfileView)> {
    Seq::new(users.len(), |i: int| (users[i].username@, users[i]@))
}

/// Usernames keyed by address.
spec fn users_by_address(users: Seq<UserProfile>) -> Seq<(Seq<u8>, Seq<char>)> {
    Seq::new(users.len(), |i: int| (users[i].user_address@, users[i].username@))
}

/// Pending transfers keyed by claim code.
spec fn claims_by_hash(claims: Seq<ClaimCode>) -> Seq<(Seq<u8>, ClaimView)> {
    Seq::new(claims.len(), |i: int| (claims[i].item_hash@, claims[i]@))
}

/// Finds the record of an item id in a list of items.
fn find_item(items: &Vec<Item>, item_id: &String) -> (found: Option<usize>)
    ensures
        match found {
            Some(i) => i < items@.len() && items@[i as int].item_id@ == item_id@,
            None => forall|j: int|
                0 <= j < items@.len() ==> (#[trigger] items_by_id(items@)[j]).0 != item_id@,
        },
{
    let mut i: usize = 0;
    while i < items.len()
        invariant
            i <= items@.len(),
            forall|j: int| 0 <= j < i ==> (#[trigger] items_by_id(items@)[j]).0 != item_id@,
        decreases items@.len() - i,
    {
        if items[i].item_id == *item_id {
            return Some(i);
        }
        i += 1;
    }
    None
}

impl View for Ownership {
    type V = OwnershipView;

    closed spec fn view(&self) -> OwnershipView {
        OwnershipView {
            authenticity: self.authenticity@,
            owner: self.owner@,
            users: as_map(users_by_name(self.users@)),
            usernames: as_map(users_by_address(self.users@)),
            items: as_map(items_by_id(self.items@)),
            item_list: item_views(self.my_items@),
            claims: as_map(claims_by_hash(self.claims@)),
        }
    }
}

impl Ownership {
    /// The invariant of the ledger: no username, address, item id or
    /// claim code occurs twice; the list holds the items of the map; and
    /// every pending transfer holds an item as it now stands.
    pub closed spec fn wf(&self) -> bool {
        &&& keys_distinct(users_by_name(self.users@))
        &&& keys_distinct(users_by_address(self.users@))
        &&& forall|i: int|
            0 <= i < self.users@.len() ==> {
                &&& (#[trigger] self.users@[i]).registered
                &&& !all_zero(self.users@[i].user_address@)
                &&& byte_len(self.users@[i].username@) >= 3
            }
        &&& keys_distinct(items_by_id(self.items@))
        &&& forall|i: int|
            0 <= i < self.items@.len() ==> !all_zero((#[trigger] self.items@[i]).owner@)
        &&& keys_distinct(items_by_id(self.my_items@))
        &&& as_map(items_by_id(self.my_items@)) == as_map(items_by_id(self.items@))
        &&& keys_distinct(claims_by_hash(self.claims@))
        &&& forall|i: int|
            0 <= i < self.claims@.len() ==> {
                &&& (#[trigger] self.claims@[i]).item_hash@ == item_hash_of(self.claims@[i].item@)
                &&& as_map(items_by_id(self.items@)).contains_key(self.claims@[i].item@.item_id)
                &&& as_map(items_by_id(self.items@))[self.claims@[i].item@.item_id]
                    == self.claims@[i].item@
                &&& !all_zero(self.claims@[i].recipient@)
                &&& self.claims@[i].recipient@ != self.claims@[i].item@.owner
            }
    }

    /// A well-formed ledger is in a consistent state.
    pub proof fn lemma_consistent(&self)
        requires
            self.wf(),
        ensures
            self@.consistent(),
    {
        let users = self.users@;
        let names = users_by_name(users);
        let addresses = users_by_address(users);
        assert forall|name: Seq<char>| #[trigger] self@.users.contains_key(name) implies {
            &&& self@.users[name].username == name
            &&& self@.users[name].registered
            &&& !all_zero(self@.users[name].user_address)
            &&& byte_len(name) >= 3
            &&& self@.usernames.contains_key(self@.users[name].user_address)
            &&& self@.usernames[self@.users[name].user_address] == name
        } by {
            let i = lemma_as_map_witness(names, name);
            assert(names[i] == (users[i].username@, users[i]@));
            assert(addresses[i] == (users[i].user_address@, users[i].username@));
            lemma_as_map_entry(addresses, i);
        }
        assert forall|address: Seq<u8>| #[trigger] self@.usernames.contains_key(address) implies {
            &&& self@.users.contains_key(self@.usernames[address])
            &&& self@.users[self@.usernames[address]].user_address == address
        } by {
            let i = lemma_as_map_witness(addresses, address);
            assert(names[i] == (users[i].username@, users[i]@));
            assert(addresses[i] == (users[i].user_address@, users[i].username@));
            lemma_as_map_entry(names, i);
        }
        let items = items_by_id(self.items@);
        assert forall|id: Seq<char>| #[trigger] self@.items.contains_key(id) implies {
            &&& self@.items[id].item_id == id
            &&& !all_zero(self@.items[id].owner)
        } by {
            let i = lemma_as_map_witness(items, id);
            assert(items[i] == (self.items@[i]@.item_id, self.items@[i]@));
        }
        assert(list_entries(self@.item_list) == items_by_id(self.my_items@));
        let claims = claims_by_hash(self.claims@);
        assert forall|hash: Seq<u8>| #[trigger] self@.claims.contains_key(hash) implies {
            &&& hash == item_hash_of(self@.claims[hash].item)
            &&& self@.items.contains_key(self@.claims[hash].item.item_id)
            &&& self@.items[self@.claims[hash].item.item_id] == self@.claims[hash].item
            &&& !all_zero(self@.claims[hash].recipient)
            &&& self@.claims[hash].recipient != self@.claims[hash].item.owner
        } by {
            let i = lemma_as_map_witness(claims, hash);
            assert(claims[i] == (self.claims@[i].item_hash@, self.claims@[i]@));
        }
    }

    /// Sets up an empty ledger administered by `owner`. The address that
    /// may create items is not set yet.
    pub fn constructor(owner: Address) -> (result: Result<Ownership, EriError>)
        ensures
            match result {
                Ok(ledger) => !all_zero(owner@) && ledger.wf() && ledger@ == (OwnershipView {
                    authenticity: Seq::new(20, |i: int| 0u8),
                    owner: owner@,
                    users: Map::<Seq<char>, UserProfileView>::empty(),
                    usernames: Map::<Seq<u8>, Seq<char>>::empty(),
                    items: Map::<Seq<char>, ItemView>::empty(),
                    item_list: Seq::<ItemView>::empty(),
                    claims: Map::<Seq<u8>, ClaimView>::empty(),
                }),
                Err(error) => all_zero(owner@) && error == EriError::AddressZero,
            },
    {
        if owner.is_zero() {
            return Err(EriError::AddressZero);
        }
        let ledger = Ownership {
            authenticity: Address { bytes: [0u8; 20] },
            owner,
            users: Vec::new(),
            items: Vec::new(),
            my_items: Vec::new(),
            claims: Vec::new(),
        };
        assert(ledger@.authenticity =~= Seq::new(20, |i: int| 0u8));
        assert(ledger@.users =~= Map::<Seq<char>, UserProfileView>::empty());
        assert(ledger@.usernames =~= Map::<Seq<u8>, Seq<char>>::empty());
        assert(ledger@.items =~= Map::<Seq<char>, ItemView>::empty());
        assert(ledger@.item_list =~= Seq::<ItemView>::empty());
        assert(ledger@.claims =~= Map::<Seq<u8>, ClaimView>::empty());
        assert(as_map(items_by_id(ledger.my_items@)) =~= as_map(items_by_id(ledger.items@)));
        Ok(ledger)
    }

    /// Refuses the null address.
    pub fn address_zero_check(&self, caller: Address) -> (result: Result<(), EriError>)
        ensures
            result == if all_zero(caller@) {
                Err::<(), EriError>(EriError::AddressZero)
            } else {
                Ok::<(), EriError>(())
            },
    {
        if caller.is_zero() {
            return Err(EriError::AddressZero);
        }
        Ok(())
    }

    /// Refuses to go on while no address may create items.
    pub fn is_authenticity_set(&self) -> (result: Result<(), EriError>)
        ensures
            result == if all_zero(self@.authenticity) {
                Err::<(), EriError>(EriError::AuthenticityNotSet)
            } else {
                Ok::<(), EriError>(())
            },
    {
        if self.authenticity.is_zero() {
            return Err(EriError::AuthenticityNotSet);
        }
        Ok(())
    }

    /// Names the one address that may create items. Only the ledger's
    /// owner may do so, and only once.
    pub fn set_authenticity(&mut self, caller: Address, authenticity_address: Address) -> (result:
        Result<Event, EriError>)
        requires
            old(self).wf(),
        ensures
            final(self).wf(),
            reports(
                result,
                old(self)@.set_authenticity_error(caller@, authenticity_address@),
                EventView::AuthenticitySet { authenticity_address: authenticity_address@ },
            ),
            final(self)@ == old(self)@.set_authenticity_post(caller@, authenticity_address@),
    {
        if !self.authenticity.is_zero() {
            return Err(EriError::Unauthorized);
        }
        self.address_zero_check(authenticity_address)?;
        if !caller.same(&self.owner) {
            return Err(EriError::OnlyOwner);
        }
        self.authenticity = authenticity_address;
        Ok(Event::AuthenticitySet { authenticity_address })
    }

    /// The address that may create items; null while it is not set.
    pub fn authenticity(&self) -> (address: Address)
        ensures
            address@ == self@.authenticity,
    {
        self.authenticity
    }

    /// Finds the profile under a username.
    fn find_user_by_name(&self, username: &String) -> (found: Option<usize>)
        requires
            self.wf(),
        ensures
            match found {
                Some(i) => i < self.users@.len() && self.users@[i as int].username@ == username@
                    && self@.users.contains_key(username@) && self@.users[username@]
                    == self.users@[i as int]@,
                None => !self@.users.contains_key(username@),
            },
    {
        let mut i: usize = 0;
        while i < self.users.len()
            invariant
                self.wf(),
                i <= self.users@.len(),
                forall|j: int|
                    0 <= j < i ==> (#[trigger] users_by_name(self.users@)[j]).0 != username@,
            decreases self.users@.len() - i,
        {
            if self.users[i].username == *username {
                proof {
                    lemma_as_map_entry(users_by_name(self.users@), i as int);
                }
                return Some(i);
            }
            i += 1;
        }
        proof {
            lemma_as_map_absent(users_by_name(self.users@), username@);
        }
        None
    }

    /// Finds the profile of an address.
    fn find_user_by_address(&self, address: &Address) -> (found: Option<usize>)
        requires
            self.wf(),
        ensures
            match found {
                Some(i) => i < self.users@.len() && self.users@[i as int].user_address@ == address@
                    && self@.usernames.contains_key(address@) && self@.usernames[address@]
                    == self.users@[i as int].username@,
                None => !self@.usernames.contains_key(address@),
            },
    {
        let mut i: usize = 0;
        while i < self.users.len()
            invariant
                self.wf(),
                i <= self.users@.len(),
                forall|j: int|
                    0 <= j < i ==> (#[trigger] users_by_address(self.users@)[j]).0 != address@,
            decreases self.users@.len() - i,
        {
            if self.users[i].user_address.same(address) {
                proof {
                    lemma_as_map_entry(users_by_address(self.users@), i as int);
                }
                return Some(i);
            }
            i += 1;
        }
        proof {
            lemma_as_map_absent(users_by_address(self.users@), address@);
        }
        None
    }

    /// Refuses an address without a user profile.
    pub fn is_registered(&self, address: Address) -> (result: Result<(), EriError>)
        requires
            self.wf(),
        ensures
            result == if self@.registered(address@) {
                Ok::<(), EriError>(())
            } else {
                Err::<(), EriError>(EriError::NotRegistered)
            },
    {
        match self.find_user_by_address(&address) {
            Some(i) => {
                if !self.users[i].registered {
                    return Err(EriError::NotRegistered);
                }
                Ok(())
            },
            None => Err(EriError::NotRegistered),
        }
    }

    /// Registers `caller` under `username` at the time `time`.
    ///
    /// Refused with `AuthenticityNotSet`, then `AddressZero` for the null
    /// address, `BadUsername` for a username under three bytes,
    /// `NotAvailable` where the username has a holder, and
    /// `AlreadyRegistered` where the caller has a username.
    pub fn user_registers(&mut self, caller: Address, username: String, time: u64) -> (result:
        Result<Event, EriError>)
        requires
            old(self).wf(),
        ensures
            final(self).wf(),
            reports(
                result,
                old(self)@.user_registers_error(caller@, username@),
                EventView::UserRegistered { user_address: caller@, username: username@ },
            ),
            final(self)@ == old(self)@.user_registers_post(caller@, username@, time),
    {
        self.is_authenticity_set()?;
        self.address_zero_check(caller)?;
        if username.as_str().as_bytes().len() < 3 {
            return Err(EriError::BadUsername);
        }
        if self.find_user_by_name(&username).is_some() {
            return Err(EriError::NotAvailable);
        }
        if self.find_user_by_address(&caller).is_some() {
            return Err(EriError::AlreadyRegistered);
        }
        let registered_name = username.clone();
        let profile = UserProfile {
            user_address: caller,
            username,
            registered: true,
            registered_at: U256 { bytes: u64_to_word(time) },
        };
        let ghost before = self.users@;
        proof {
            lemma_as_map_push(users_by_name(before), profile.username@, profile@);
            lemma_as_map_push(users_by_address(before), caller@, profile.username@);
        }
        self.users.push(profile);
        proof {
            assert(users_by_name(self.users@) =~= users_by_name(before).push(
                (profile.username@, profile@),
            ));
            assert(users_by_address(self.users@) =~= users_by_address(before).push(
                (caller@, profile.username@),
            ));
        }
        Ok(Event::UserRegistered { user_address: caller, username: registered_name })
    }

    /// The profile of an address: its address, username, whether it is
    /// registered, and when it registered. `NotFound` where it has none.
    pub fn get_user(&self, user_address: Address) -> (result: Result<
        (Address, String, bool, U256),
        EriError,
    >)
        requires
            self.wf(),
        ensures
            match result {
                Ok(profile) => {
                    &&& !all_zero(self@.authenticity)
                    &&& self@.usernames.contains_key(user_address@)
                    &&& (UserProfileView {
                        user_address: profile.0@,
                        username: profile.1@,
                        registered: profile.2,
                        registered_at: profile.3@,
                    }) == self@.users[self@.usernames[user_address@]]
                },
                Err(error) => error == if all_zero(self@.authenticity) {
                    EriError::AuthenticityNotSet
                } else {
                    EriError::NotFound
                } && (all_zero(self@.authenticity) || !self@.usernames.contains_key(
                    user_address@,
                )),
            },
    {
        self.is_authenticity_set()?;
        match self.find_user_by_address(&user_address) {
            Some(i) => {
                proof {
                    lemma_as_map_entry(users_by_name(self.users@), i as int);
                }
                Ok(
                    (
                        self.users[i].user_address,
                        self.users[i].username.clone(),
                        self.users[i].registered,
                        self.users[i].registered_at,
                    ),
                )
            },
            None => Err(EriError::NotFound),
        }
    }

    /// Finds the record of an item id.
    fn find_primary(&self, item_id: &String) -> (found: Option<usize>)
        requires
            self.wf(),
        ensures
            match found {
                Some(i) => i < self.items@.len() && self.items@[i as int].item_id@ == item_id@
                    && self@.items.contains_key(item_id@) && self@.items[item_id@]
                    == self.items@[i as int]@,
                None => !self@.items.contains_key(item_id@),
            },
    {
        let found = find_item(&self.items, item_id);
        proof {
            match found {
                Some(i) => {
                    lemma_as_map_entry(items_by_id(self.items@), i as int);
                },
                None => {
                    lemma_as_map_absent(items_by_id(self.items@), item_id@);
                },
            }
        }
        found
    }

    /// Finds the pending transfer under a claim code.
    fn find_claim(&self, item_hash: &FixedBytes32) -> (found: Option<usize>)
        requires
            self.wf(),
        ensures
            match found {
                Some(i) => i < self.claims@.len() && self.claims@[i as int].item_hash@
                    == item_hash@ && self@.claims.contains_key(item_hash@)
                    && self@.claims[item_hash@] == self.claims@[i as int]@,
                None => !self@.claims.contains_key(item_hash@),
            },
    {
        let mut i: usize = 0;
        while i < self.claims.len()
            invariant
                self.wf(),
                i <= self.claims@.len(),
                forall|j: int|
                    0 <= j < i ==> (#[trigger] claims_by_hash(self.claims@)[j]).0 != item_hash@,
            decreases self.claims@.len() - i,
        {
            if self.claims[i].item_hash.same(item_hash) {
                proof {
                    lemma_as_map_entry(claims_by_hash(self.claims@), i as int);
                }
                return Some(i);
            }
            i += 1;
        }
        proof {
            lemma_as_map_absent(claims_by_hash(self.claims@), item_hash@);
        }
        None
    }

    /// Refuses a caller that does not own the item.
    pub fn is_item_owner(&self, caller: Address, item_id: String) -> (result: Result<(), EriError>)
        requires
            self.wf(),
        ensures
            result == if self@.owns(caller@, item_id@) {
                Ok::<(), EriError>(())
            } else {
                Err::<(), EriError>(EriError::OnlyOwner)
            },
    {
        match self.find_primary(&item_id) {
            Some(i) => {
                if !self.items[i].owner.same(&caller) {
                    return Err(EriError::OnlyOwner);
                }
                Ok(())
            },
            None => Err(EriError::OnlyOwner),
        }
    }

    /// Creates the item of a verified certificate for `user`.
    ///
    /// Only the address named by `set_authenticity` may call this. `owner`
    /// is the manufacturer that the certificate names. Refused with
    /// `AuthenticityNotSet`; `AddressZero` where the caller or the user is
    /// null; `NotRegistered` where the user has no profile; `Unauthorized`
    /// for any other caller; `AddressZero` where the manufacturer is null;
    /// and `AlreadyClaimed` where the id has an owner. An id is never
    /// freed, so it is used once.
    pub fn create_item(
        &mut self,
        caller: Address,
        user: Address,
        name: String,
        unique_id: String,
        serial: String,
        date: U256,
        owner: Address,
        metadata: Vec<String>,
        manufacturer_name: String,
    ) -> (result: Result<Event, EriError>)
        requires
            old(self).wf(),
        ensures
            final(self).wf(),
            reports(
                result,
                old(self)@.create_item_error(caller@, user@, unique_id@, owner@),
                EventView::ItemCreated { item_id: unique_id@, owner: user@ },
            ),
            final(self)@ == old(self)@.create_item_post(
                caller@,
                owner@,
                ItemView {
                    name: name@,
                    item_id: unique_id@,
                    serial: serial@,
                    date: date@,
                    owner: user@,
                    manufacturer: manufacturer_name@,
                    metadata: strings_view(metadata@),
                },
            ),
    {
        self.is_authenticity_set()?;
        self.address_zero_check(caller)?;
        self.address_zero_check(user)?;
        self.is_registered(user)?;
        if !caller.same(&self.authenticity) {
            return Err(EriError::Unauthorized);
        }
        if owner.is_zero() {
            return Err(EriError::AddressZero);
        }
        if self.find_primary(&unique_id).is_some() {
            return Err(EriError::AlreadyClaimed);
        }
        let item_id = unique_id.clone();
        let mut item = Item::empty();
        set_item(&mut item, user, name, unique_id, serial, date, manufacturer_name);
        item.metadata = metadata;
        let listed = item.clone();
        let ghost before = *self;
        proof {
            let primary = items_by_id(before.items@);
            let list = items_by_id(before.my_items@);
            assert(!as_map(list).contains_key(item@.item_id));
            lemma_as_map_push(primary, item@.item_id, item@);
            lemma_as_map_push(list, item@.item_id, item@);
            lemma_items_push(before.items@, item);
            lemma_items_push(before.my_items@, listed);
        }
        self.items.push(item);
        self.my_items.push(listed);
        proof {
            assert(item_views(self.my_items@) =~= item_views(before.my_items@).push(listed@));
            assert forall|i: int| 0 <= i < self.items@.len() implies !all_zero(
                (#[trigger] self.items@[i]).owner@,
            ) by {
                if i < before.items@.len() {
                    assert(self.items@[i] == before.items@[i]);
                }
            }
        }
        Ok(Event::ItemCreated { item_id, owner: user })
    }

    /// Makes a claim code by which `temp_owner` may take over the item,
    /// and returns it in the event to publish. The code is the content
    /// hash of the item as it stands, so no second code can be made for an
    /// item until the first is accepted or revoked.
    ///
    /// Refused with `AddressZero` where the caller or the recipient is
    /// null; `AuthenticityNotSet`; `NotRegistered` where the caller has no
    /// profile; `OnlyOwner` where the caller does not own the item;
    /// `CannotGenerateForSelf` where the recipient is the caller; and
    /// `ClaimAlreadyOutstanding` where the code is pending already.
    pub fn generate_change_of_ownership_code(
        &mut self,
        caller: Address,
        item_id: String,
        temp_owner: Address,
    ) -> (result: Result<Event, EriError>)
        requires
            old(self).wf(),
        ensures
            final(self).wf(),
            final(self)@ == old(self)@.generate_post(caller@, item_id@, temp_owner@),
            reports(
                result,
                old(self)@.generate_error(caller@, item_id@, temp_owner@),
                EventView::OwnershipCode {
                    ownership_code: item_hash_of(old(self)@.items[item_id@]),
                    temp_owner: temp_owner@,
                },
            ),
    {
        self.address_zero_check(caller)?;
        self.address_zero_check(temp_owner)?;
        self.is_authenticity_set()?;
        self.is_registered(caller)?;
        let place = match self.find_primary(&item_id) {
            Some(place) => place,
            None => {
                return Err(EriError::OnlyOwner);
            },
        };
        if !self.items[place].owner.same(&caller) {
            return Err(EriError::OnlyOwner);
        }
        if caller.same(&temp_owner) {
            return Err(EriError::CannotGenerateForSelf);
        }
        let snapshot = self.items[place].clone();
        let hash = item_hash(&snapshot);
        self.lock_item(snapshot, temp_owner, hash)
    }

    /// Puts an item under the claim code `item_hash` for `temp_owner`.
    /// `item` must be the item as the ledger has it, `item_hash` its
    /// content hash, and `temp_owner` an address other than its owner.
    /// Refused with `ClaimAlreadyOutstanding` where the code is pending
    /// already.
    pub fn lock_item(&mut self, item: Item, temp_owner: Address, item_hash: FixedBytes32) -> (result:
        Result<Event, EriError>)
        requires
            old(self).wf(),
            old(self)@.items.contains_key(item@.item_id),
            old(self)@.items[item@.item_id] == item@,
            item_hash@ == item_hash_of(item@),
            !all_zero(temp_owner@),
            temp_owner@ != item@.owner,
        ensures
            final(self).wf(),
            reports(
                result,
                if old(self)@.claims.contains_key(item_hash@) {
                    Some(EriError::ClaimAlreadyOutstanding)
                } else {
                    None
                },
                EventView::OwnershipCode { ownership_code: item_hash@, temp_owner: temp_owner@ },
            ),
            final(self)@ == if old(self)@.claims.contains_key(item_hash@) {
                old(self)@
            } else {
                OwnershipView {
                    claims: old(self)@.claims.insert(
                        item_hash@,
                        ClaimView { recipient: temp_owner@, item: item@ },
                    ),
                    ..old(self)@
                }
            },
    {
        if self.find_claim(&item_hash).is_some() {
            return Err(EriError::ClaimAlreadyOutstanding);
        }
        let claim = ClaimCode { item_hash, recipient: temp_owner, item };
        let ghost before = *self;
        proof {
            lemma_as_map_push(claims_by_hash(before.claims@), item_hash@, claim@);
        }
        self.claims.push(claim);
        proof {
            assert(claims_by_hash(self.claims@) =~= claims_by_hash(before.claims@).push(
                (item_hash@, claim@),
            ));
            assert forall|i: int| 0 <= i < self.claims@.len() implies {
                &&& (#[trigger] self.claims@[i]).item_hash@ == item_hash_of(self.claims@[i].item@)
                &&& as_map(items_by_id(self.items@)).contains_key(self.claims@[i].item@.item_id)
                &&& as_map(items_by_id(self.items@))[self.claims@[i].item@.item_id]
                    == self.claims@[i].item@
                &&& !all_zero(self.claims@[i].recipient@)
                &&& self.claims@[i].recipient@ != self.claims@[i].item@.owner
            } by {
                if i < before.claims@.len() {
                    assert(self.claims@[i] == before.claims@[i]);
                }
            }
        }
        Ok(Event::OwnershipCode { ownership_code: item_hash, temp_owner })
    }

    /// The address for which a claim code is pending; the null address
    /// where none is.
    pub fn get_temp_owner(&self, item_hash: FixedBytes32) -> (result: Result<Address, EriError>)
        requires
            self.wf(),
        ensures
            match result {
                Ok(address) => !all_zero(self@.authenticity) && if self@.claims.contains_key(
                    item_hash@,
                ) {
                    address@ == self@.claims[item_hash@].recipient
                } else {
                    all_zero(address@)
                },
                Err(error) => all_zero(self@.authenticity) && error
                    == EriError::AuthenticityNotSet,
            },
    {
        self.is_authenticity_set()?;
        match self.find_claim(&item_hash) {
            Some(i) => Ok(self.claims[i].recipient),
            None => Ok(Address::zero()),
        }
    }

    /// Takes back a claim code. The item stays with its owner.
    ///
    /// Refused with `AuthenticityNotSet`; `AddressZero` for the null
    /// caller; `NotRegistered` where the caller has no profile;
    /// `DoesNotExist` where no such code is pending; and `OnlyOwner` where
    /// the caller is not the owner of the item that the code is for.
    pub fn owner_revoke_code(&mut self, caller: Address, item_hash: FixedBytes32) -> (result:
        Result<Event, EriError>)
        requires
            old(self).wf(),
        ensures
            final(self).wf(),
            reports(
                result,
                old(self)@.revoke_error(caller@, item_hash@),
                EventView::CodeRevoked { item_hash: item_hash@ },
            ),
            final(self)@ == old(self)@.revoke_post(caller@, item_hash@),
    {
        self.is_authenticity_set()?;
        self.address_zero_check(caller)?;
        self.is_registered(caller)?;
        let place = match self.find_claim(&item_hash) {
            Some(place) => place,
            None => {
                return Err(EriError::DoesNotExist);
            },
        };
        if !self.claims[place].item.owner.same(&caller) {
            return Err(EriError::OnlyOwner);
        }
        let ghost before = *self;
        proof {
            lemma_as_map_remove(claims_by_hash(before.claims@), place as int);
        }
        self.claims.remove(place);
        proof {
            assert(claims_by_hash(self.claims@) =~= claims_by_hash(before.claims@).remove(
                place as int,
            ));
            assert forall|i: int| 0 <= i < self.claims@.len() implies {
                &&& (#[trigger] self.claims@[i]).item_hash@ == item_hash_of(self.claims@[i].item@)
                &&& as_map(items_by_id(self.items@)).contains_key(self.claims@[i].item@.item_id)
                &&& as_map(items_by_id(self.items@))[self.claims@[i].item@.item_id]
                    == self.claims@[i].item@
                &&& !all_zero(self.claims@[i].recipient@)
                &&& self.claims@[i].recipient@ != self.claims@[i].item@.owner
            } by {
                let j = if i < place { i } else { i + 1 };
                assert(self.claims@[i] == before.claims@[j]);
            }
        }
        Ok(Event::CodeRevoked { item_hash })
    }

    /// The fields of an item; `NotFound` where the id has none.
    pub fn get_item(&self, item_id: String) -> (result: Result<ItemFields, EriError>)
        requires
            self.wf(),
        ensures
            match result {
                Ok(fields) => !all_zero(self@.authenticity) && self@.items.contains_key(item_id@)
                    && fields_view(fields) == self@.items[item_id@],
                Err(error) => error == if all_zero(self@.authenticity) {
                    EriError::AuthenticityNotSet
                } else {
                    EriError::NotFound
                } && (all_zero(self@.authenticity) || !self@.items.contains_key(item_id@)),
            },
    {
        self.is_authenticity_set()?;
        match self.find_primary(&item_id) {
            Some(i) => {
                let meta = clone_strings(&self.items[i].metadata);
                Ok(item_tuple(&self.items[i], meta))
            },
            None => Err(EriError::NotFound),
        }
    }

    /// An item's name and id with its owner's username and address;
    /// `ItemDoesNotExist` where the id has no item. The username is empty
    /// where the owner has no profile.
    pub fn verify_ownership(&self, item_id: String) -> (result: Result<
        (String, String, String, Address),
        EriError,
    >)
        requires
            self.wf(),
        ensures
            match result {
                Ok(answer) => {
                    let item = self@.items[item_id@];
                    &&& !all_zero(self@.authenticity)
                    &&& self@.items.contains_key(item_id@)
                    &&& answer.0@ == item.name
                    &&& answer.1@ == item.item_id
                    &&& answer.2@ == if self@.usernames.contains_key(item.owner) {
                        self@.usernames[item.owner]
                    } else {
                        Seq::<char>::empty()
                    }
                    &&& answer.3@ == item.owner
                },
                Err(error) => error == if all_zero(self@.authenticity) {
                    EriError::AuthenticityNotSet
                } else {
                    EriError::ItemDoesNotExist
                } && (all_zero(self@.authenticity) || !self@.items.contains_key(item_id@)),
            },
    {
        self.is_authenticity_set()?;
        match self.find_primary(&item_id) {
            Some(i) => {
                let owner = self.items[i].owner;
                let username = match self.find_user_by_address(&owner) {
                    Some(u) => self.users[u].username.clone(),
                    None => String::new(),
                };
                Ok((self.items[i].name.clone(), self.items[i].item_id.clone(), username, owner))
            },
            None => Err(EriError::ItemDoesNotExist),
        }
    }

    /// Whether `user` owns the item. The null address is given `true`: it
    /// equals the owner field of a record that is not there.
    pub fn is_owner(&self, user: Address, item_id: String) -> (result: Result<bool, EriError>)
        requires
            self.wf(),
        ensures
            result == if all_zero(self@.authenticity) {
                Err::<bool, EriError>(EriError::AuthenticityNotSet)
            } else {
                Ok::<bool, EriError>(self@.owns(user@, item_id@) || all_zero(user@))
            },
    {
        self.is_authenticity_set()?;
        if user.is_zero() {
            return Ok(true);
        }
        match self.find_primary(&item_id) {
            Some(i) => Ok(self.items[i].owner.same(&user)),
            None => Ok(false),
        }
    }

    /// Accepts a claim code: the item passes to the caller, who must be
    /// the recipient that the code was made for. The item leaves its place
    /// in the list and joins the list's end, its record in the map names
    /// the caller as owner, and the code is gone. The change of owner is
    /// returned for the host to publish.
    ///
    /// Refused with `AuthenticityNotSet`; `AddressZero` for the null
    /// caller; `NotRegistered` where the caller has no profile; and
    /// `Unauthorized` where no such code is pending for the caller.
    pub fn new_owner_claim_ownership(&mut self, caller: Address, item_hash: FixedBytes32) -> (result:
        Result<Event, EriError>)
        requires
            old(self).wf(),
        ensures
            final(self).wf(),
            final(self)@ == old(self)@.accept_post(caller@, item_hash@),
            reports(
                result,
                old(self)@.accept_error(caller@, item_hash@),
                EventView::OwnershipClaimed {
                    new_owner: caller@,
                    old_owner: old(self)@.claims[item_hash@].item.owner,
                },
            ),
    {
        self.is_authenticity_set()?;
        self.address_zero_check(caller)?;
        self.is_registered(caller)?;
        let code = match self.find_claim(&item_hash) {
            Some(code) => code,
            None => {
                return Err(EriError::Unauthorized);
            },
        };
        if !self.claims[code].recipient.same(&caller) {
            return Err(EriError::Unauthorized);
        }
        let found = find_item(&self.items, &self.claims[code].item.item_id);
        let listed = find_item(&self.my_items, &self.claims[code].item.item_id);
        let ghost before = *self;
        let ghost id = before.claims@[code as int].item@.item_id;
        let ghost snapshot = before.claims@[code as int].item@;
        proof {
            if found is None {
                lemma_as_map_absent(items_by_id(before.items@), id);
            }
            if listed is None {
                lemma_as_map_absent(items_by_id(before.my_items@), id);
            }
        }
        let (place, entry) = match (found, listed) {
            (Some(place), Some(entry)) => (place, entry),
            _ => {
                return Err(EriError::Unauthorized);
            },
        };
        proof {
            let primary = items_by_id(before.items@);
            let list = items_by_id(before.my_items@);
            lemma_as_map_entry(primary, place as int);
            lemma_as_map_entry(list, entry as int);
            lemma_as_map_remove(primary, place as int);
            lemma_as_map_remove(list, entry as int);
            lemma_as_map_remove(claims_by_hash(before.claims@), code as int);
            lemma_items_remove(before.items@, place as int);
            lemma_items_remove(before.my_items@, entry as int);
            assert(list[index_of_key(list, id)].0 == id);
            assert(index_of_key(list_entries(before@.item_list), id) == entry);
        }
        let claim = self.claims.remove(code);
        self.items.remove(place);
        self.my_items.remove(entry);
        let mut moved = claim.item;
        let previous = moved.owner;
        moved.owner = caller;
        let relisted = moved.clone();
        let ghost halfway = *self;
        proof {
            assert(moved@ == owned_by(snapshot, caller@));
            let primary = items_by_id(halfway.items@);
            let list = items_by_id(halfway.my_items@);
            assert(!as_map(primary).contains_key(id));
            assert(!as_map(list).contains_key(id));
            lemma_as_map_push(primary, id, moved@);
            lemma_as_map_push(list, id, moved@);
            lemma_items_push(halfway.items@, moved);
            lemma_items_push(halfway.my_items@, relisted);
        }
        self.items.push(moved);
        self.my_items.push(relisted);
        proof {
            let old_items = as_map(items_by_id(before.items@));
            let new_items = as_map(items_by_id(self.items@));
            assert(new_items =~= old_items.insert(id, moved@));
            assert(as_map(items_by_id(self.my_items@)) =~= new_items);
            assert(item_views(self.my_items@) =~= without_item(before@.item_list, id).push(
                moved@,
            ));
            assert(claims_by_hash(self.claims@) =~= claims_by_hash(before.claims@).remove(
                code as int,
            ));
            assert forall|i: int| 0 <= i < self.items@.len() implies !all_zero(
                (#[trigger] self.items@[i]).owner@,
            ) by {
                if i < halfway.items@.len() {
                    let j = if i < place { i } else { i + 1 };
                    assert(self.items@[i] == before.items@[j]);
                }
            }
            assert forall|i: int| 0 <= i < self.claims@.len() implies {
                &&& (#[trigger] self.claims@[i]).item_hash@ == item_hash_of(self.claims@[i].item@)
                &&& new_items.contains_key(self.claims@[i].item@.item_id)
                &&& new_items[self.claims@[i].item@.item_id] == self.claims@[i].item@
                &&& !all_zero(self.claims@[i].recipient@)
                &&& self.claims@[i].recipient@ != self.claims@[i].item@.owner
            } by {
                let j = if i < code { i } else { i + 1 };
                assert(self.claims@[i] == before.claims@[j]);
                let other = before.claims@[j];
                if other.item@.item_id == id {
                    assert(other.item@ == snapshot);
                    assert(claims_by_hash(before.claims@)[j].0 == claims_by_hash(
                        before.claims@,
                    )[code as int].0);
                }
            }
        }
        Ok(Event::OwnershipClaimed { new_owner: caller, old_owner: previous })
    }

    /// The items that `caller` holds, in the order in which it got them.
    /// An entry of the list counts only where the map holds the item for
    /// the caller. `NotFound` where the caller has no profile.
    pub fn get_all_my_items(&self, caller: Address) -> (result: Result<Vec<ItemFields>, EriError>)
        requires
            self.wf(),
        ensures
            match result {
                Ok(list) => !all_zero(self@.authenticity) && self@.registered(caller@)
                    && fields_views(list@) == self@.my_items(caller@),
                Err(error) => error == if all_zero(self@.authenticity) {
                    EriError::AuthenticityNotSet
                } else {
                    EriError::NotFound
                } && (all_zero(self@.authenticity) || !self@.registered(caller@)),
            },
    {
        self.is_authenticity_set()?;
        if self.find_user_by_address(&caller).is_none() {
            return Err(EriError::NotFound);
        }
        let mut new_list: Vec<ItemFields> = Vec::new();
        let mut i: usize = 0;
        proof {
            reveal(Seq::filter);
            assert(item_views(self.my_items@).take(0) =~= Seq::<ItemView>::empty());
            assert(fields_views(new_list@) =~= Seq::<ItemView>::empty());
        }
        while i < self.my_items.len()
            invariant
                self.wf(),
                i <= self.my_items@.len(),
                fields_views(new_list@) == item_views(self.my_items@).take(i as int).filter(
                    held_by(caller@),
                ),
            decreases self.my_items@.len() - i,
        {
            let ghost views = item_views(self.my_items@);
            let ghost kept = fields_views(new_list@);
            proof {
                reveal(Seq::filter);
                assert(views.take(i as int + 1).drop_last() =~= views.take(i as int));
                assert(views.take(i as int + 1).last() == self.my_items@[i as int]@);
                lemma_as_map_entry(items_by_id(self.my_items@), i as int);
            }
            if self.my_items[i].owner.same(&caller) {
                match self.find_primary(&self.my_items[i].item_id) {
                    Some(place) => {
                        if self.items[place].owner.same(&caller) {
                            let meta = clone_strings(&self.items[place].metadata);
                            new_list.push(item_tuple(&self.items[place], meta));
                            proof {
                                assert(fields_views(new_list@) =~= kept.push(
                                    self.my_items@[i as int]@,
                                ));
                            }
                        }
                    },
                    None => {},
                }
            }
            i += 1;
        }
        proof {
            assert(item_views(self.my_items@).take(i as int) =~= item_views(self.my_items@));
        }
        Ok(new_list)
    }
}

/// Pushing an item pushes its entry.
proof fn lemma_items_push(items: Seq<Item>, item: Item)
    ensures
        items_by_id(items.push(item)) == items_by_id(items).push((item@.item_id, item@)),
{
    assert(items_by_id(items.push(item)) =~= items_by_id(items).push((item@.item_id, item@)));
}

/// Removing an item removes its entry.
proof fn lemma_items_remove(items: Seq<Item>, i: int)
    requires
        0 <= i < items.len(),
    ensures
        items_by_id(items.remove(i)) == items_by_id(items).remove(i),
        item_views(items.remove(i)) == item_views(items).remove(i),
{
    assert(items_by_id(items.remove(i)) =~= items_by_id(items).remove(i));
    assert(item_views(items.remove(i)) =~= item_views(items).remove(i));
}

} // verus!
