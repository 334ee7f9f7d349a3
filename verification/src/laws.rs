//! What holds of the registry and the ledger over whole histories of
//! operations: names and usernames stay with their first holder, an item
//! id is used once, an item has one owner, and a claim code either moves
//! the item to its recipient or leaves everything as it was.

use crate::assoc::{
    as_map, has_key, index_of_key, lemma_as_map_entry, lemma_as_map_push, lemma_as_map_remove,
    lemma_as_map_witness,
};
use crate::authenticity::AuthenticityView;
use crate::hashing::{item_hash_of, signer_of};
use crate::ownership::{
    held_by, list_entries, owned_by, without_item, ItemState, OwnershipView,
};
use crate::primitives::all_zero;
use crate::types::{CertificateView, EriError, ItemView};
use vstd::prelude::*;

verus! {

/// The registry after a sequence of registration attempts, each of a
/// caller and a name; refused attempts change nothing.
pub open spec fn after_registrations(
    registry: AuthenticityView,
    attempts: Seq<(Seq<u8>, Seq<char>)>,
) -> AuthenticityView
    decreases attempts.len(),
{
    if attempts.len() == 0 {
        registry
    } else {
        after_registrations(registry, attempts.drop_last()).register_post(
            attempts.last().0,
            attempts.last().1,
        )
    }
}

/// A name that a manufacturer has registered stays with that manufacturer:
/// whatever registrations are attempted afterwards, the name still leads
/// to the same address, and no later attempt to register it succeeds,
/// whoever makes it.
pub proof fn law_manufacturer_name_unique(
    registry: AuthenticityView,
    holder: Seq<u8>,
    name: Seq<char>,
    later: Seq<(Seq<u8>, Seq<char>)>,
    other: Seq<u8>,
)
    requires
        registry.register_error(holder, name) is None,
    ensures
        after_registrations(registry.register_post(holder, name), later).names.contains_key(name),
        after_registrations(registry.register_post(holder, name), later).names[name] == holder,
        after_registrations(registry.register_post(holder, name), later).register_error(
            other,
            name,
        ) is Some,
        !all_zero(other) && other != holder && !after_registrations(
            registry.register_post(holder, name),
            later,
        ).manufacturers.contains_key(other) ==> after_registrations(
            registry.register_post(holder, name),
            later,
        ).register_error(other, name) == Some(EriError::NameTaken),
    decreases later.len(),
{
    if later.len() > 0 {
        law_manufacturer_name_unique(registry, holder, name, later.drop_last(), later.last().0);
    }
}

/// Every registration keeps the two directions of the registry in
/// agreement, so they agree after any sequence of attempts.
pub proof fn law_registry_stays_consistent(
    registry: AuthenticityView,
    attempts: Seq<(Seq<u8>, Seq<char>)>,
)
    requires
        registry.consistent(),
    ensures
        after_registrations(registry, attempts).consistent(),
    decreases attempts.len(),
{
    if attempts.len() > 0 {
        law_registry_stays_consistent(registry, attempts.drop_last());
    }
}

/// One operation on the ledger, with its arguments.
pub enum LedgerStep {
    /// The item-creating address is named.
    SetAuthenticity { caller: Seq<u8>, address: Seq<u8> },
    /// A user registers.
    UserRegisters { caller: Seq<u8>, username: Seq<char>, time: u64 },
    /// An item is created for `item.owner`, on a certificate of
    /// `manufacturer`.
    CreateItem { caller: Seq<u8>, manufacturer: Seq<u8>, item: ItemView },
    /// A claim code is made.
    Generate { caller: Seq<u8>, item_id: Seq<char>, recipient: Seq<u8> },
    /// A claim code is accepted.
    Accept { caller: Seq<u8>, hash: Seq<u8> },
    /// A claim code is revoked.
    Revoke { caller: Seq<u8>, hash: Seq<u8> },
}

/// The ledger after one operation; a refused operation changes nothing.
pub open spec fn after_step(ledger: OwnershipView, step: LedgerStep) -> OwnershipView {
    match step {
        LedgerStep::SetAuthenticity { caller, address } => ledger.set_authenticity_post(
            caller,
            address,
        ),
        LedgerStep::UserRegisters { caller, username, time } => ledger.user_registers_post(
            caller,
            username,
            time,
        ),
        LedgerStep::CreateItem { caller, manufacturer, item } => ledger.create_item_post(
            caller,
            manufacturer,
            item,
        ),
        LedgerStep::Generate { caller, item_id, recipient } => ledger.generate_post(
            caller,
            item_id,
            recipient,
        ),
        LedgerStep::Accept { caller, hash } => ledger.accept_post(caller, hash),
        LedgerStep::Revoke { caller, hash } => ledger.revoke_post(caller, hash),
    }
}

/// The ledger after a sequence of operations.
pub open spec fn after_steps(ledger: OwnershipView, steps: Seq<LedgerStep>) -> OwnershipView
    decreases steps.len(),
{
    if steps.len() == 0 {
        ledger
    } else {
        after_step(after_steps(ledger, steps.drop_last()), steps.last())
    }
}

/// No operation takes a profile away, frees an item id, or changes the
/// item-creating address once it is set.
pub proof fn lemma_steps_keep(ledger: OwnershipView, steps: Seq<LedgerStep>)
    ensures
        !all_zero(ledger.authenticity) ==> after_steps(ledger, steps).authenticity
            == ledger.authenticity,
        forall|name: Seq<char>| #[trigger]
            ledger.users.contains_key(name) ==> after_steps(ledger, steps).users.contains_key(name)
                && after_steps(ledger, steps).users[name] == ledger.users[name],
        forall|address: Seq<u8>| #[trigger]
            ledger.usernames.contains_key(address) ==> after_steps(
                ledger,
                steps,
            ).usernames.contains_key(address) && after_steps(ledger, steps).usernames[address]
                == ledger.usernames[address],
        forall|id: Seq<char>| #[trigger]
            ledger.items.contains_key(id) ==> after_steps(ledger, steps).items.contains_key(id),
    decreases steps.len(),
{
    if steps.len() > 0 {
        lemma_steps_keep(ledger, steps.drop_last());
    }
}

/// A username that a user has registered stays with that user: whatever
/// the ledger goes through afterwards, the username still leads to the
/// same address, and no later attempt to register it succeeds, whoever
/// makes it.
pub proof fn law_username_unique(
    ledger: OwnershipView,
    holder: Seq<u8>,
    username: Seq<char>,
    time: u64,
    later: Seq<LedgerStep>,
    other: Seq<u8>,
)
    requires
        ledger.user_registers_error(holder, username) is None,
    ensures
        after_steps(ledger.user_registers_post(holder, username, time), later).users.contains_key(
            username,
        ),
        after_steps(
            ledger.user_registers_post(holder, username, time),
            later,
        ).users[username].user_address == holder,
        after_steps(
            ledger.user_registers_post(holder, username, time),
            later,
        ).user_registers_error(other, username) is Some,
        !all_zero(other) ==> after_steps(
            ledger.user_registers_post(holder, username, time),
            later,
        ).user_registers_error(other, username) == Some(EriError::NotAvailable),
{
    let start = ledger.user_registers_post(holder, username, time);
    assert(start.users.contains_key(username));
    lemma_steps_keep(start, later);
}

/// An item id is used once: after an item has been created, whatever the
/// ledger goes through afterwards, the id still has its item, and every
/// later attempt to create an item under it is refused; one that passes
/// the checks on caller, user and manufacturer is refused as
/// `AlreadyClaimed`.
pub proof fn law_item_created_once(
    ledger: OwnershipView,
    caller: Seq<u8>,
    manufacturer: Seq<u8>,
    item: ItemView,
    later: Seq<LedgerStep>,
    next_caller: Seq<u8>,
    next_user: Seq<u8>,
    next_manufacturer: Seq<u8>,
)
    requires
        ledger.create_item_error(caller, item.owner, item.item_id, manufacturer) is None,
    ensures
        after_steps(ledger.create_item_post(caller, manufacturer, item), later).items.contains_key(
            item.item_id,
        ),
        after_steps(ledger.create_item_post(caller, manufacturer, item), later).create_item_error(
            next_caller,
            next_user,
            item.item_id,
            next_manufacturer,
        ) is Some,
        ({
            let now = after_steps(ledger.create_item_post(caller, manufacturer, item), later);
            next_caller == now.authenticity && !all_zero(next_user) && now.registered(next_user)
                && !all_zero(next_manufacturer)
        }) ==> after_steps(
            ledger.create_item_post(caller, manufacturer, item),
            later,
        ).create_item_error(next_caller, next_user, item.item_id, next_manufacturer) == Some(
            EriError::AlreadyClaimed,
        ),
{
    let start = ledger.create_item_post(caller, manufacturer, item);
    assert(start.items.contains_key(item.item_id));
    lemma_steps_keep(start, later);
}

/// Every operation keeps the ledger consistent.
pub proof fn law_consistency_kept(ledger: OwnershipView, step: LedgerStep)
    requires
        ledger.consistent(),
    ensures
        after_step(ledger, step).consistent(),
{
    let next = after_step(ledger, step);
    let entries = list_entries(ledger.item_list);
    match step {
        LedgerStep::SetAuthenticity { caller, address } => {},
        LedgerStep::UserRegisters { caller, username, time } => {},
        LedgerStep::CreateItem { caller, manufacturer, item } => {
            if ledger.create_item_error(caller, item.owner, item.item_id, manufacturer) is None {
                assert(!has_key(entries, item.item_id));
                lemma_as_map_push(entries, item.item_id, item);
                assert(list_entries(next.item_list) =~= entries.push((item.item_id, item)));
            }
        },
        LedgerStep::Generate { caller, item_id, recipient } => {},
        LedgerStep::Accept { caller, hash } => {
            if ledger.accept_error(caller, hash) is None {
                let item = ledger.claims[hash].item;
                let moved = owned_by(item, caller);
                assert(has_key(entries, item.item_id));
                let place = index_of_key(entries, item.item_id);
                lemma_as_map_remove(entries, place);
                let rest = entries.remove(place);
                assert(list_entries(without_item(ledger.item_list, item.item_id)) =~= rest);
                assert(!has_key(rest, item.item_id));
                lemma_as_map_push(rest, item.item_id, moved);
                assert(list_entries(next.item_list) =~= rest.push((item.item_id, moved)));
                assert(as_map(list_entries(next.item_list)) =~= next.items);
                assert forall|other: Seq<u8>| #[trigger] next.claims.contains_key(other) implies {
                    &&& other == item_hash_of(next.claims[other].item)
                    &&& next.items.contains_key(next.claims[other].item.item_id)
                    &&& next.items[next.claims[other].item.item_id] == next.claims[other].item
                    &&& !all_zero(next.claims[other].recipient)
                    &&& next.claims[other].recipient != next.claims[other].item.owner
                } by {
                    assert(ledger.claims.contains_key(other));
                    if ledger.claims[other].item.item_id == item.item_id {
                        assert(ledger.claims[other].item == item);
                    }
                }
            }
        },
        LedgerStep::Revoke { caller, hash } => {},
    }
}

/// Every state that a consistent ledger reaches is consistent.
pub proof fn law_consistency_lasts(ledger: OwnershipView, steps: Seq<LedgerStep>)
    requires
        ledger.consistent(),
    ensures
        after_steps(ledger, steps).consistent(),
    decreases steps.len(),
{
    if steps.len() > 0 {
        law_consistency_lasts(ledger, steps.drop_last());
        law_consistency_kept(after_steps(ledger, steps.drop_last()), steps.last());
    }
}

/// An item has one owner: the owner recorded for an item id is the one
/// address under which the item is held, no two addresses hold the same
/// item, and every entry of the list is the record that the map holds
/// for its owner.
pub proof fn law_single_owner(ledger: OwnershipView, item_id: Seq<char>, a: Seq<u8>, b: Seq<u8>)
    requires
        ledger.consistent(),
    ensures
        ledger.owned_items(a).contains_key(item_id) <==> ledger.owner_by_id().contains_key(item_id)
            && ledger.owner_by_id()[item_id] == a,
        ledger.owned_items(a).contains_key(item_id) && ledger.owned_items(b).contains_key(item_id)
            ==> a == b,
        forall|i: int|
            0 <= i < ledger.item_list.len() ==> ledger.owned_items(
                (#[trigger] ledger.item_list[i]).owner,
            ).contains_key(ledger.item_list[i].item_id) && ledger.owned_items(
                ledger.item_list[i].owner,
            )[ledger.item_list[i].item_id] == ledger.item_list[i],
        ledger.owned_items(a).contains_key(item_id) ==> exists|i: int|
            0 <= i < ledger.item_list.len() && #[trigger] ledger.item_list[i]
                == ledger.owned_items(a)[item_id],
{
    let entries = list_entries(ledger.item_list);
    assert forall|i: int| 0 <= i < ledger.item_list.len() implies ledger.owned_items(
        (#[trigger] ledger.item_list[i]).owner,
    ).contains_key(ledger.item_list[i].item_id) && ledger.owned_items(
        ledger.item_list[i].owner,
    )[ledger.item_list[i].item_id] == ledger.item_list[i] by {
        assert(entries[i] == (ledger.item_list[i].item_id, ledger.item_list[i]));
        lemma_as_map_entry(entries, i);
    }
    if ledger.owned_items(a).contains_key(item_id) {
        let i = lemma_as_map_witness(entries, item_id);
        assert(ledger.item_list[i] == ledger.owned_items(a)[item_id]);
    }
}

/// A verified certificate was signed by its manufacturer: the verdict is
/// `Ok(true)` exactly if the signature yields a signer over the
/// certificate's digest in this deployment, that signer is the owner that
/// the certificate names, and that owner is a registered manufacturer.
/// There is no other success.
pub proof fn law_verify_sound(
    registry: AuthenticityView,
    certificate: CertificateView,
    signature: Seq<u8>,
)
    ensures
        registry.verify(certificate, signature) == Ok::<bool, EriError>(true) <==> signer_of(
            registry.certificate_digest(certificate),
            signature,
        ) == Some(certificate.owner) && registry.manufacturers.contains_key(certificate.owner),
        registry.verify(certificate, signature) != Ok::<bool, EriError>(false),
{
}

/// While a claim code is pending, no second one can be made for the item.
pub proof fn law_one_pending_claim(
    ledger: OwnershipView,
    owner: Seq<u8>,
    item_id: Seq<char>,
    recipient: Seq<u8>,
    second: Seq<u8>,
)
    requires
        ledger.generate_error(owner, item_id, recipient) is None,
    ensures
        ledger.generate_post(owner, item_id, recipient).generate_error(owner, item_id, second)
            is Some,
        !all_zero(second) && second != owner ==> ledger.generate_post(
            owner,
            item_id,
            recipient,
        ).generate_error(owner, item_id, second) == Some(EriError::ClaimAlreadyOutstanding),
{
}

/// A claim code that its recipient accepts moves the item: the recipient,
/// once registered, is not refused; the item is then the recipient's and
/// nobody else's; and the claim codes are those from before the code was
/// made.
pub proof fn law_claim_accepted(
    ledger: OwnershipView,
    owner: Seq<u8>,
    item_id: Seq<char>,
    recipient: Seq<u8>,
)
    requires
        ledger.consistent(),
        ledger.generate_error(owner, item_id, recipient) is None,
        ledger.registered(recipient),
    ensures
        ({
            let hash = item_hash_of(ledger.items[item_id]);
            let pending = ledger.generate_post(owner, item_id, recipient);
            let done = pending.accept_post(recipient, hash);
            &&& pending.claims.contains_key(hash)
            &&& pending.claims[hash].recipient == recipient
            &&& pending.accept_error(recipient, hash) is None
            &&& done.owns(recipient, item_id)
            &&& !done.owns(owner, item_id)
            &&& done.owner_by_id()[item_id] == recipient
            &&& done.items == ledger.items.insert(
                item_id,
                owned_by(ledger.items[item_id], recipient),
            )
            &&& !done.claims.contains_key(hash)
            &&& done.claims == ledger.claims
            &&& done.item_list == without_item(ledger.item_list, item_id).push(
                owned_by(ledger.items[item_id], recipient),
            )
        }),
{
    let hash = item_hash_of(ledger.items[item_id]);
    let pending = ledger.generate_post(owner, item_id, recipient);
    let done = pending.accept_post(recipient, hash);
    assert(done.claims =~= ledger.claims);
}

/// What the test keeps of a list that gained an entry at its end.
pub proof fn lemma_filter_push<A>(list: Seq<A>, entry: A, test: spec_fn(A) -> bool)
    ensures
        list.push(entry).filter(test) == if test(entry) {
            list.filter(test).push(entry)
        } else {
            list.filter(test)
        },
{
    reveal(Seq::filter);
    assert(list.push(entry).drop_last() =~= list);
}

/// What the test keeps of a list that lost an entry: what it keeps of the
/// part before the entry, then what it keeps of the part behind it.
pub proof fn lemma_filter_remove<A>(list: Seq<A>, place: int, test: spec_fn(A) -> bool)
    requires
        0 <= place < list.len(),
    ensures
        list.remove(place).filter(test) == list.take(place).filter(test) + list.skip(
            place + 1,
        ).filter(test),
        list.filter(test) == if test(list[place]) {
            list.take(place).filter(test).push(list[place]) + list.skip(place + 1).filter(test)
        } else {
            list.remove(place).filter(test)
        },
{
    let before = list.take(place);
    let behind = list.skip(place + 1);
    assert(list.remove(place) =~= before + behind);
    assert(list =~= before.push(list[place]) + behind);
    Seq::filter_distributes_over_add(before, behind, test);
    Seq::filter_distributes_over_add(before.push(list[place]), behind, test);
    lemma_filter_push(before, list[place], test);
}

/// An accepted claim code moves the item from list to list: the
/// recipient's list gains the item at its end, the former owner's list
/// loses it and keeps the order of the rest, and every other list stays as
/// it was.
pub proof fn law_claim_moves_list_entry(
    ledger: OwnershipView,
    owner: Seq<u8>,
    item_id: Seq<char>,
    recipient: Seq<u8>,
    other: Seq<u8>,
)
    requires
        ledger.consistent(),
        ledger.generate_error(owner, item_id, recipient) is None,
        ledger.registered(recipient),
    ensures
        ({
            let item = ledger.items[item_id];
            let place = index_of_key(list_entries(ledger.item_list), item_id);
            let done = ledger.generate_post(owner, item_id, recipient).accept_post(
                recipient,
                item_hash_of(item),
            );
            &&& 0 <= place < ledger.item_list.len()
            &&& ledger.item_list[place] == item
            &&& done.my_items(recipient) == ledger.my_items(recipient).push(
                owned_by(item, recipient),
            )
            &&& ledger.my_items(owner) == ledger.item_list.take(place).filter(held_by(owner)).push(
                item,
            ) + ledger.item_list.skip(place + 1).filter(held_by(owner))
            &&& done.my_items(owner) == ledger.item_list.take(place).filter(held_by(owner))
                + ledger.item_list.skip(place + 1).filter(held_by(owner))
            &&& other != owner && other != recipient ==> done.my_items(other) == ledger.my_items(
                other,
            )
        }),
{
    let item = ledger.items[item_id];
    let entries = list_entries(ledger.item_list);
    let done = ledger.generate_post(owner, item_id, recipient).accept_post(
        recipient,
        item_hash_of(item),
    );
    assert(has_key(entries, item_id));
    let place = index_of_key(entries, item_id);
    assert(entries[place] == (ledger.item_list[place].item_id, ledger.item_list[place]));
    lemma_as_map_entry(entries, place);
    let rest = ledger.item_list.remove(place);
    assert(done.item_list == rest.push(owned_by(item, recipient)));
    lemma_filter_remove(ledger.item_list, place, held_by(owner));
    lemma_filter_remove(ledger.item_list, place, held_by(recipient));
    lemma_filter_remove(ledger.item_list, place, held_by(other));
    lemma_filter_push(rest, owned_by(item, recipient), held_by(owner));
    lemma_filter_push(rest, owned_by(item, recipient), held_by(recipient));
    lemma_filter_push(rest, owned_by(item, recipient), held_by(other));
}

/// A claim code that its maker revokes changes nothing: the owner is not
/// refused, and the ledger is then as it was before the code was made.
pub proof fn law_claim_revoked(
    ledger: OwnershipView,
    owner: Seq<u8>,
    item_id: Seq<char>,
    recipient: Seq<u8>,
)
    requires
        ledger.consistent(),
        ledger.generate_error(owner, item_id, recipient) is None,
    ensures
        ({
            let hash = item_hash_of(ledger.items[item_id]);
            let pending = ledger.generate_post(owner, item_id, recipient);
            let done = pending.revoke_post(owner, hash);
            &&& pending.revoke_error(owner, hash) is None
            &&& !done.claims.contains_key(hash)
            &&& done == ledger
            &&& done.owns(owner, item_id)
        }),
{
    let hash = item_hash_of(ledger.items[item_id]);
    let pending = ledger.generate_post(owner, item_id, recipient);
    let done = pending.revoke_post(owner, hash);
    assert(done.claims =~= ledger.claims);
}

/// The life of an item between two owners: a claim code takes an owned
/// item to pending; from there acceptance by the recipient takes it to
/// owned by the recipient, and revocation by the owner takes it back to
/// owned by the owner.
pub proof fn law_item_states(
    ledger: OwnershipView,
    owner: Seq<u8>,
    item_id: Seq<char>,
    recipient: Seq<u8>,
)
    requires
        ledger.consistent(),
        ledger.generate_error(owner, item_id, recipient) is None,
    ensures
        ({
            let hash = item_hash_of(ledger.items[item_id]);
            let pending = ledger.generate_post(owner, item_id, recipient);
            &&& ledger.item_state(item_id) == (ItemState::Owned { owner: owner })
            &&& pending.item_state(item_id) == (ItemState::ClaimPending {
                owner: owner,
                item_hash: hash,
                recipient: recipient,
            })
            &&& pending.revoke_post(owner, hash).item_state(item_id) == (ItemState::Owned {
                owner: owner,
            })
            &&& ledger.registered(recipient) ==> pending.accept_post(recipient, hash).item_state(
                item_id,
            ) == (ItemState::Owned { owner: recipient })
        }),
{
    let item = ledger.items[item_id];
    let hash = item_hash_of(item);
    let pending = ledger.generate_post(owner, item_id, recipient);
    let revoked = pending.revoke_post(owner, hash);
    assert(revoked.claims =~= ledger.claims);
    if ledger.registered(recipient) {
        let done = pending.accept_post(recipient, hash);
        assert(done.claims =~= ledger.claims);
        let moved = owned_by(item, recipient);
        let next = item_hash_of(moved);
        if done.claims.contains_key(next) && done.claims[next].item.item_id == item_id {
            assert(ledger.items[item_id] == ledger.claims[next].item);
        }
    }
}

/// Only the recipient that a claim code was made for can accept it.
pub proof fn law_claim_is_for_its_recipient(
    ledger: OwnershipView,
    owner: Seq<u8>,
    item_id: Seq<char>,
    recipient: Seq<u8>,
    other: Seq<u8>,
)
    requires
        ledger.generate_error(owner, item_id, recipient) is None,
        other != recipient,
    ensures
        ledger.generate_post(owner, item_id, recipient).accept_error(
            other,
            item_hash_of(ledger.items[item_id]),
        ) is Some,
{
}

} // verus!
