//! The records that the registry handles, their views, and the failures
//! that its operations report.

use crate::primitives::{Address, FixedBytes32, U256};
use vstd::prelude::*;
use vstd::utf8::encode_utf8;

verus! {

/// The length of a string in bytes, as UTF-8.
pub open spec fn byte_len(text: Seq<char>) -> nat {
    encode_utf8(text).len()
}

/// Why an operation was refused. A refused operation leaves the state as
/// it found it.
#[derive(Clone, Copy, Debug, PartialEq, Eq, Structural)]
pub enum EriError {
    /// A required address is the null address.
    AddressZero,
    /// The caller already holds a manufacturer or user record.
    AlreadyRegistered,
    /// The manufacturer name belongs to another address.
    NameTaken,
    /// The username belongs to another address.
    NotAvailable,
    /// The manufacturer name is shorter than two bytes.
    InvalidName,
    /// The username is shorter than three bytes.
    BadUsername,
    /// No manufacturer, user or item is recorded under the key.
    NotFound,
    /// No claim code is pending under the hash.
    DoesNotExist,
    /// No item is recorded under the id whose ownership is asked about.
    ItemDoesNotExist,
    /// The address has no user profile.
    NotRegistered,
    /// The caller may not perform the operation.
    Unauthorized,
    /// The caller does not own the item.
    OnlyOwner,
    /// The signature is malformed, recovers no signer, or was made by
    /// another key than the manufacturer's.
    InvalidSignature,
    /// The item id already has an owner.
    AlreadyClaimed,
    /// A claim code is already pending for the item as it stands.
    ClaimAlreadyOutstanding,
    /// The owner named themselves as recipient.
    CannotGenerateForSelf,
    /// The ownership ledger refused the item of a verified certificate.
    ClaimFailed,
    /// The ledger has not been told which component may create items.
    AuthenticityNotSet,
}

/// What an operation asks the host to publish once it has succeeded.
#[derive(Clone, Debug, PartialEq, Eq)]
pub enum Event {
    /// A manufacturer has registered under a name.
    ManufacturerRegistered { manufacturer_address: Address, manufacturer_name: String },
    /// A user has registered under a username.
    UserRegistered { user_address: Address, username: String },
    /// The address that may create items has been set.
    AuthenticitySet { authenticity_address: Address },
    /// An item has been created for its first owner.
    ItemCreated { item_id: String, owner: Address },
    /// A claim code has been made for a recipient.
    OwnershipCode { ownership_code: FixedBytes32, temp_owner: Address },
    /// An item has passed from its old owner to a new one.
    OwnershipClaimed { new_owner: Address, old_owner: Address },
    /// A claim code has been taken back.
    CodeRevoked { item_hash: FixedBytes32 },
}

/// What an event says.
pub enum EventView {
    ManufacturerRegistered { manufacturer_address: Seq<u8>, manufacturer_name: Seq<char> },
    UserRegistered { user_address: Seq<u8>, username: Seq<char> },
    AuthenticitySet { authenticity_address: Seq<u8> },
    ItemCreated { item_id: Seq<char>, owner: Seq<u8> },
    OwnershipCode { ownership_code: Seq<u8>, temp_owner: Seq<u8> },
    OwnershipClaimed { new_owner: Seq<u8>, old_owner: Seq<u8> },
    CodeRevoked { item_hash: Seq<u8> },
}

impl View for Event {
    type V = EventView;

    open spec fn view(&self) -> EventView {
        match *self {
            Event::ManufacturerRegistered { manufacturer_address, manufacturer_name } => {
                EventView::ManufacturerRegistered {
                    manufacturer_address: manufacturer_address@,
                    manufacturer_name: manufacturer_name@,
                }
            },
            Event::UserRegistered { user_address, username } => EventView::UserRegistered {
                user_address: user_address@,
                username: username@,
            },
            Event::AuthenticitySet { authenticity_address } => EventView::AuthenticitySet {
                authenticity_address: authenticity_address@,
            },
            Event::ItemCreated { item_id, owner } => EventView::ItemCreated {
                item_id: item_id@,
                owner: owner@,
            },
            Event::OwnershipCode { ownership_code, temp_owner } => EventView::OwnershipCode {
                ownership_code: ownership_code@,
                temp_owner: temp_owner@,
            },
            Event::OwnershipClaimed { new_owner, old_owner } => EventView::OwnershipClaimed {
                new_owner: new_owner@,
                old_owner: old_owner@,
            },
            Event::CodeRevoked { item_hash } => EventView::CodeRevoked { item_hash: item_hash@ },
        }
    }
}

/// The result of an operation that is refused with `error`, or else
/// succeeds and has `event` published.
pub open spec fn reports(
    result: Result<Event, EriError>,
    error: Option<EriError>,
    event: EventView,
) -> bool {
    match result {
        Ok(published) => error is None && published@ == event,
        Err(refusal) => error == Some(refusal),
    }
}

/// The views of a sequence of strings.
pub open spec fn strings_view(v: Seq<String>) -> Seq<Seq<char>> {
    Seq::new(v.len(), |i: int| v[i]@)
}

/// Copies a list of strings.
pub fn clone_strings(v: &Vec<String>) -> (copy: Vec<String>)
    ensures
        strings_view(copy@) == strings_view(v@),
{
    let mut copy: Vec<String> = Vec::new();
    let mut i: usize = 0;
    while i < v.len()
        invariant
            i <= v.len(),
            copy.len() == i,
            forall|j: int| 0 <= j < i ==> copy@[j]@ == v@[j]@,
        decreases v.len() - i,
    {
        copy.push(v[i].clone());
        i += 1;
    }
    assert(strings_view(copy@) =~= strings_view(v@));
    copy
}

/// A manufacturer's signed statement about one item. It is checked and
/// then dropped; only the item it describes is kept.
#[derive(Debug)]
pub struct Certificate {
    pub name: String,
    pub unique_id: String,
    pub serial: String,
    pub date: U256,
    pub owner: Address,
    pub metadata_hash: FixedBytes32,
    pub metadata: Vec<String>,
}

/// What a certificate says.
pub struct CertificateView {
    pub name: Seq<char>,
    pub unique_id: Seq<char>,
    pub serial: Seq<char>,
    pub date: Seq<u8>,
    pub owner: Seq<u8>,
    pub metadata_hash: Seq<u8>,
    pub metadata: Seq<Seq<char>>,
}

impl View for Certificate {
    type V = CertificateView;

    open spec fn view(&self) -> CertificateView {
        CertificateView {
            name: self.name@,
            unique_id: self.unique_id@,
            serial: self.serial@,
            date: self.date@,
            owner: self.owner@,
            metadata_hash: self.metadata_hash@,
            metadata: strings_view(self.metadata@),
        }
    }
}

/// An item of the ownership ledger.
#[derive(Debug)]
pub struct Item {
    pub name: String,
    pub item_id: String,
    pub serial: String,
    pub date: U256,
    pub owner: Address,
    pub manufacturer: String,
    pub metadata: Vec<String>,
}

/// What an item record says.
pub struct ItemView {
    pub name: Seq<char>,
    pub item_id: Seq<char>,
    pub serial: Seq<char>,
    pub date: Seq<u8>,
    pub owner: Seq<u8>,
    pub manufacturer: Seq<char>,
    pub metadata: Seq<Seq<char>>,
}

impl View for Item {
    type V = ItemView;

    open spec fn view(&self) -> ItemView {
        ItemView {
            name: self.name@,
            item_id: self.item_id@,
            serial: self.serial@,
            date: self.date@,
            owner: self.owner@,
            manufacturer: self.manufacturer@,
            metadata: strings_view(self.metadata@),
        }
    }
}

impl Clone for Certificate {
    fn clone(&self) -> (copy: Certificate)
        ensures
            copy@ == self@,
    {
        Certificate {
            name: self.name.clone(),
            unique_id: self.unique_id.clone(),
            serial: self.serial.clone(),
            date: self.date,
            owner: self.owner,
            metadata_hash: self.metadata_hash,
            metadata: clone_strings(&self.metadata),
        }
    }
}

impl Clone for Item {
    fn clone(&self) -> (copy: Item)
        ensures
            copy@ == self@,
    {
        Item {
            name: self.name.clone(),
            item_id: self.item_id.clone(),
            serial: self.serial.clone(),
            date: self.date,
            owner: self.owner,
            manufacturer: self.manufacturer.clone(),
            metadata: clone_strings(&self.metadata),
        }
    }
}

impl Item {
    /// An item without an owner, a name or an id: what a lookup finds
    /// where nothing was stored.
    pub fn empty() -> (item: Item)
        ensures
            item@ == (ItemView {
                name: Seq::<char>::empty(),
                item_id: Seq::<char>::empty(),
                serial: Seq::<char>::empty(),
                date: Seq::new(32, |i: int| 0u8),
                owner: Seq::new(20, |i: int| 0u8),
                manufacturer: Seq::<char>::empty(),
                metadata: Seq::<Seq<char>>::empty(),
            }),
    {
        let item = Item {
            name: String::new(),
            item_id: String::new(),
            serial: String::new(),
            date: U256 { bytes: [0u8; 32] },
            owner: Address { bytes: [0u8; 20] },
            manufacturer: String::new(),
            metadata: Vec::new(),
        };
        assert(item@.date =~= Seq::new(32, |i: int| 0u8));
        assert(item@.owner =~= Seq::new(20, |i: int| 0u8));
        assert(item@.metadata =~= Seq::<Seq<char>>::empty());
        item
    }
}

/// Writes the fields of an item record that a creation or a transfer
/// decides; the metadata stays as it was.
pub fn set_item(
    new_item: &mut Item,
    user: Address,
    name: String,
    unique_id: String,
    serial: String,
    date: U256,
    manufacturer_name: String,
)
    ensures
        final(new_item)@ == (ItemView {
            name: name@,
            item_id: unique_id@,
            serial: serial@,
            date: date@,
            owner: user@,
            manufacturer: manufacturer_name@,
            metadata: old(new_item)@.metadata,
        }),
{
    new_item.item_id = unique_id;
    new_item.owner = user;
    new_item.name = name;
    new_item.date = date;
    new_item.manufacturer = manufacturer_name;
    new_item.serial = serial;
}

/// The fields of an item as callers receive them: name, id, serial, date,
/// owner, manufacturer, metadata.
pub type ItemFields = (String, String, String, U256, Address, String, Vec<String>);

/// The item that a tuple of fields describes.
pub open spec fn fields_view(fields: ItemFields) -> ItemView {
    ItemView {
        name: fields.0@,
        item_id: fields.1@,
        serial: fields.2@,
        date: fields.3@,
        owner: fields.4@,
        manufacturer: fields.5@,
        metadata: strings_view(fields.6@),
    }
}

/// The fields of an item in the order in which callers receive them, with
/// `meta` as the metadata.
pub fn item_tuple(item: &Item, meta: Vec<String>) -> (fields: ItemFields)
    ensures
        fields_view(fields) == (ItemView { metadata: strings_view(meta@), ..item@ }),
        fields.6 == meta,
{
    (
        item.name.clone(),
        item.item_id.clone(),
        item.serial.clone(),
        item.date,
        item.owner,
        item.manufacturer.clone(),
        meta,
    )
}

} // verus!
