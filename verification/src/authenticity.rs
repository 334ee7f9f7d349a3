//! The manufacturer registry and the verification of certificates.

use crate::assoc::{
    as_map, has_key, keys_distinct, lemma_as_map_entry, lemma_as_map_push, lemma_as_map_witness,
};
use crate::hashing::{
    certificate_struct_hash, digest, domain_separator, domain_separator_of, hash_str, recover,
    signer_of, string_hash, struct_hash, typed_data_digest,
};
use crate::ownership::{Ownership, OwnershipView};
use crate::primitives::{all_zero, Address, FixedBytes32};
use crate::types::{
    byte_len, reports, Certificate, CertificateView, EriError, Event, EventView, ItemView,
};
use vstd::prelude::*;

verus! {

/// A registered manufacturer.
#[derive(Debug)]
pub struct Manufacturer {
    pub name: String,
    pub manufacturer_address: Address,
}

/// What a manufacturer record says.
pub struct ManufacturerView {
    pub name: Seq<char>,
    pub manufacturer_address: Seq<u8>,
}

impl View for Manufacturer {
    type V = ManufacturerView;

    open spec fn view(&self) -> ManufacturerView {
        ManufacturerView { name: self.name@, manufacturer_address: self.manufacturer_address@ }
    }
}

/// The certificate authority: the signing domain of one deployment and
/// the manufacturers registered with it.
pub struct Authenticity {
    certificate_type_hash: FixedBytes32,
    domain_name_hash: FixedBytes32,
    domain_version_hash: FixedBytes32,
    chain_id: u64,
    contract_address: Address,
    ownership: Address,
    manufacturers: Vec<Manufacturer>,
}

/// The state of the certificate authority.
pub struct AuthenticityView {
    /// The hash of the certificate schema's type string.
    pub certificate_type_hash: Seq<u8>,
    /// The hash of the signing domain's name.
    pub domain_name_hash: Seq<u8>,
    /// The hash of the signing domain's version.
    pub domain_version_hash: Seq<u8>,
    /// The chain that signatures are bound to.
    pub chain_id: u64,
    /// The authority's own address, which signatures are bound to.
    pub contract_address: Seq<u8>,
    /// The address of the ownership ledger.
    pub ownership: Seq<u8>,
    /// The manufacturer recorded for each registered address.
    pub manufacturers: Map<Seq<u8>, ManufacturerView>,
    /// The address that holds each registered name.
    pub names: Map<Seq<char>, Seq<u8>>,
}

impl AuthenticityView {
    /// The domain separator of this deployment.
    pub open spec fn domain_separator(self) -> Seq<u8> {
        domain_separator_of(
            self.domain_name_hash,
            self.domain_version_hash,
            self.chain_id,
            self.contract_address,
        )
    }

    /// The digest that a manufacturer signs for a certificate.
    pub open spec fn certificate_digest(self, certificate: CertificateView) -> Seq<u8> {
        typed_data_digest(
            self.domain_separator(),
            certificate_struct_hash(self.certificate_type_hash, certificate),
        )
    }

    /// The two directions of the registry agree: an address has a record
    /// exactly if its name leads back to it, no record is held by the null
    /// address, and every name has at least two bytes.
    pub open spec fn consistent(self) -> bool {
        &&& forall|address: Seq<u8>| #[trigger]
            self.manufacturers.contains_key(address) ==> {
                &&& !all_zero(address)
                &&& self.manufacturers[address].manufacturer_address == address
                &&& byte_len(self.manufacturers[address].name) >= 2
                &&& self.names.contains_key(self.manufacturers[address].name)
                &&& self.names[self.manufacturers[address].name] == address
            }
        &&& forall|name: Seq<char>| #[trigger]
            self.names.contains_key(name) ==> {
                &&& self.manufacturers.contains_key(self.names[name])
                &&& self.manufacturers[self.names[name]].name == name
            }
    }

    /// Why a registration is refused, if it is.
    pub open spec fn register_error(self, caller: Seq<u8>, name: Seq<char>) -> Option<EriError> {
        if all_zero(caller) {
            Some(EriError::AddressZero)
        } else if self.manufacturers.contains_key(caller) {
            Some(EriError::AlreadyRegistered)
        } else if byte_len(name) < 2 {
            Some(EriError::InvalidName)
        } else if self.names.contains_key(name) {
            Some(EriError::NameTaken)
        } else {
            None
        }
    }

    /// The state after `caller` asked to register `name`: both directions
    /// gain the entry, or nothing changes.
    pub open spec fn register_post(self, caller: Seq<u8>, name: Seq<char>) -> AuthenticityView {
        if self.register_error(caller, name) is Some {
            self
        } else {
            AuthenticityView {
                manufacturers: self.manufacturers.insert(
                    caller,
                    ManufacturerView { name: name, manufacturer_address: caller },
                ),
                names: self.names.insert(name, caller),
                ..self
            }
        }
    }

    /// The verdict on a certificate once the signer of its digest is
    /// known: a signature that yields no signer is invalid, an owner that
    /// is no registered manufacturer is not found, and a signer other
    /// than the owner is invalid again.
    pub open spec fn verdict(self, owner: Seq<u8>, signer: Option<Seq<u8>>) -> Result<
        bool,
        EriError,
    > {
        match signer {
            None => Err(EriError::InvalidSignature),
            Some(address) => if !self.manufacturers.contains_key(owner) {
                Err(EriError::NotFound)
            } else if address != owner {
                Err(EriError::InvalidSignature)
            } else {
                Ok(true)
            },
        }
    }

    /// The item that a certificate describes once `user` has claimed it:
    /// the certificate's fields, the claimant as owner, and the name under
    /// which the certificate's manufacturer is registered.
    pub open spec fn claimed_item(self, user: Seq<u8>, certificate: CertificateView) -> ItemView {
        ItemView {
            name: certificate.name,
            item_id: certificate.unique_id,
            serial: certificate.serial,
            date: certificate.date,
            owner: user,
            manufacturer: self.manufacturers[certificate.owner].name,
            metadata: certificate.metadata,
        }
    }

    /// Why a claim is refused, if it is: the null caller, then what the
    /// verification says, then `ClaimFailed` for whatever reason the
    /// ledger has to refuse the item.
    pub open spec fn claim_error(
        self,
        ledger: OwnershipView,
        caller: Seq<u8>,
        certificate: CertificateView,
        signature: Seq<u8>,
    ) -> Option<EriError> {
        if all_zero(caller) {
            Some(EriError::AddressZero)
        } else {
            match self.verify(certificate, signature) {
                Err(error) => Some(error),
                Ok(_) => if ledger.create_item_error(
                    self.contract_address,
                    caller,
                    certificate.unique_id,
                    certificate.owner,
                ) is Some {
                    Some(EriError::ClaimFailed)
                } else {
                    None
                },
            }
        }
    }

    /// The verdict on a certificate and a raw signature.
    pub open spec fn verify(self, certificate: CertificateView, signature: Seq<u8>) -> Result<
        bool,
        EriError,
    > {
        self.verdict(
            certificate.owner,
            signer_of(self.certificate_digest(certificate), signature),
        )
    }
}

/// The records, keyed by address.
spec fn by_address(records: Seq<Manufacturer>) -> Seq<(Seq<u8>, ManufacturerView)> {
    Seq::new(records.len(), |i: int| (records[i].manufacturer_address@, records[i]@))
}

/// The records' addresses, keyed by name.
spec fn by_name(records: Seq<Manufacturer>) -> Seq<(Seq<char>, Seq<u8>)> {
    Seq::new(records.len(), |i: int| (records[i].name@, records[i].manufacturer_address@))
}

/// The view of a recovery result.
pub open spec fn signer_view(signer: Result<Address, EriError>) -> Option<Seq<u8>> {
    match signer {
        Ok(address) => Some(address@),
        Err(_) => None,
    }
}

impl View for Authenticity {
    type V = AuthenticityView;

    closed spec fn view(&self) -> AuthenticityView {
        AuthenticityView {
            certificate_type_hash: self.certificate_type_hash@,
            domain_name_hash: self.domain_name_hash@,
            domain_version_hash: self.domain_version_hash@,
            chain_id: self.chain_id,
            contract_address: self.contract_address@,
            ownership: self.ownership@,
            manufacturers: as_map(by_address(self.manufacturers@)),
            names: as_map(by_name(self.manufacturers@)),
        }
    }
}

impl Authenticity {
    /// The invariant of the registry: no address and no name occurs
    /// twice, no record belongs to the null address, and every name has at
    /// least two bytes.
    pub closed spec fn wf(&self) -> bool {
        &&& keys_distinct(by_address(self.manufacturers@))
        &&& keys_distinct(by_name(self.manufacturers@))
        &&& forall|i: int|
            0 <= i < self.manufacturers@.len() ==> {
                &&& !all_zero((#[trigger] self.manufacturers@[i]).manufacturer_address@)
                &&& byte_len(self.manufacturers@[i].name@) >= 2
            }
    }

    /// A well-formed registry is consistent in both directions.
    pub proof fn lemma_consistent(&self)
        requires
            self.wf(),
        ensures
            self@.consistent(),
    {
        let records = self.manufacturers@;
        let addresses = by_address(records);
        let names = by_name(records);
        assert forall|address: Seq<u8>| #[trigger]
            self@.manufacturers.contains_key(address) implies {
            &&& !all_zero(address)
            &&& self@.manufacturers[address].manufacturer_address == address
            &&& byte_len(self@.manufacturers[address].name) >= 2
            &&& self@.names.contains_key(self@.manufacturers[address].name)
            &&& self@.names[self@.manufacturers[address].name] == address
        } by {
            let i = lemma_as_map_witness(addresses, address);
            assert(addresses[i] == (records[i].manufacturer_address@, records[i]@));
            assert(names[i] == (records[i].name@, records[i].manufacturer_address@));
            lemma_as_map_entry(names, i);
        }
        assert forall|name: Seq<char>| #[trigger] self@.names.contains_key(name) implies {
            &&& self@.manufacturers.contains_key(self@.names[name])
            &&& self@.manufacturers[self@.names[name]].name == name
        } by {
            let i = lemma_as_map_witness(names, name);
            assert(addresses[i] == (records[i].manufacturer_address@, records[i]@));
            assert(names[i] == (records[i].name@, records[i].manufacturer_address@));
            lemma_as_map_entry(addresses, i);
        }
    }

    /// Sets up an authority with its own certificate schema and signing
    /// domain: `certificate` is the schema's type string, `signing_domain`
    /// and `signature_version` name the domain, and `chain_id` and
    /// `contract_address` bind signatures to this deployment. No
    /// manufacturer is registered yet.
    pub fn new(
        ownership_addr: Address,
        certificate: String,
        signing_domain: String,
        signature_version: String,
        chain_id: u64,
        contract_address: Address,
    ) -> (result: Result<Authenticity, EriError>)
        ensures
            result matches Ok(authority) && authority.wf() && authority@ == (AuthenticityView {
                certificate_type_hash: string_hash(certificate@),
                domain_name_hash: string_hash(signing_domain@),
                domain_version_hash: string_hash(signature_version@),
                chain_id: chain_id,
                contract_address: contract_address@,
                ownership: ownership_addr@,
                manufacturers: Map::<Seq<u8>, ManufacturerView>::empty(),
                names: Map::<Seq<char>, Seq<u8>>::empty(),
            }),
    {
        let authority = Authenticity {
            certificate_type_hash: hash_str(certificate.as_str()),
            domain_name_hash: hash_str(signing_domain.as_str()),
            domain_version_hash: hash_str(signature_version.as_str()),
            chain_id,
            contract_address,
            ownership: ownership_addr,
            manufacturers: Vec::new(),
        };
        assert(authority@.manufacturers =~= Map::<Seq<u8>, ManufacturerView>::empty());
        assert(authority@.names =~= Map::<Seq<char>, Seq<u8>>::empty());
        Ok(authority)
    }

    /// The type string of the certificate schema that `constructor` uses.
    pub open spec fn certificate_type() -> Seq<char> {
        "Certificate(string name,string uniqueId,string serial,uint256 date,address owner,bytes32 metadataHash)"@
    }

    /// The name of the signing domain that `constructor` uses.
    pub open spec fn signing_domain() -> Seq<char> {
        "CertificateAuth"@
    }

    /// The version of the signing domain that `constructor` uses.
    pub open spec fn signature_version() -> Seq<char> {
        "1"@
    }

    /// Sets up an authority with the standard certificate schema and the
    /// signing domain `CertificateAuth`, version `1`.
    pub fn constructor(ownership_addr: Address, chain_id: u64, contract_address: Address) -> (result:
        Result<Authenticity, EriError>)
        ensures
            result matches Ok(authority) && authority.wf() && authority@ == (AuthenticityView {
                certificate_type_hash: string_hash(Self::certificate_type()),
                domain_name_hash: string_hash(Self::signing_domain()),
                domain_version_hash: string_hash(Self::signature_version()),
                chain_id: chain_id,
                contract_address: contract_address@,
                ownership: ownership_addr@,
                manufacturers: Map::<Seq<u8>, ManufacturerView>::empty(),
                names: Map::<Seq<char>, Seq<u8>>::empty(),
            }),
    {
        let authority = Authenticity {
            certificate_type_hash: hash_str(
                "Certificate(string name,string uniqueId,string serial,uint256 date,address owner,bytes32 metadataHash)",
            ),
            domain_name_hash: hash_str("CertificateAuth"),
            domain_version_hash: hash_str("1"),
            chain_id,
            contract_address,
            ownership: ownership_addr,
            manufacturers: Vec::new(),
        };
        assert(authority@.manufacturers =~= Map::<Seq<u8>, ManufacturerView>::empty());
        assert(authority@.names =~= Map::<Seq<char>, Seq<u8>>::empty());
        Ok(authority)
    }

    /// The address of the ownership ledger that claimed items go to.
    pub fn ownership_address(&self) -> (address: Address)
        ensures
            address@ == self@.ownership,
    {
        self.ownership
    }

    /// The authority's own address.
    pub fn contract_address(&self) -> (address: Address)
        ensures
            address@ == self@.contract_address,
    {
        self.contract_address
    }

    /// The hash of the certificate schema's type string.
    pub fn certificate_type_hash(&self) -> (hash: FixedBytes32)
        ensures
            hash@ == self@.certificate_type_hash,
    {
        self.certificate_type_hash
    }

    /// Refuses the null address.
    pub fn address_zero_check(&self, addr: Address) -> (result: Result<(), EriError>)
        ensures
            result == if all_zero(addr@) {
                Err::<(), EriError>(EriError::AddressZero)
            } else {
                Ok::<(), EriError>(())
            },
    {
        if addr.is_zero() {
            return Err(EriError::AddressZero);
        }
        Ok(())
    }

    /// Finds the record of an address.
    fn find_by_address(&self, address: &Address) -> (found: Option<usize>)
        requires
            self.wf(),
        ensures
            match found {
                Some(i) => i < self.manufacturers@.len()
                    && self.manufacturers@[i as int].manufacturer_address@ == address@
                    && self@.manufacturers.contains_key(address@)
                    && self@.manufacturers[address@] == self.manufacturers@[i as int]@,
                None => !self@.manufacturers.contains_key(address@),
            },
    {
        let mut i: usize = 0;
        while i < self.manufacturers.len()
            invariant
                self.wf(),
                i <= self.manufacturers@.len(),
                forall|j: int|
                    0 <= j < i ==> (#[trigger] self.manufacturers@[j]).manufacturer_address@
                        != address@,
            decreases self.manufacturers@.len() - i,
        {
            if self.manufacturers[i].manufacturer_address.same(address) {
                proof {
                    let entries = by_address(self.manufacturers@);
                    assert(entries[i as int].0 == address@);
                    lemma_as_map_entry(entries, i as int);
                }
                return Some(i);
            }
            i += 1;
        }
        proof {
            let entries = by_address(self.manufacturers@);
            if has_key(entries, address@) {
                let j = choose|j: int| 0 <= j < entries.len() && (#[trigger] entries[j]).0 == address@;
                assert(self.manufacturers@[j].manufacturer_address@ == address@);
            }
        }
        None
    }

    /// Finds the record of a name.
    fn find_by_name(&self, name: &String) -> (found: Option<usize>)
        requires
            self.wf(),
        ensures
            match found {
                Some(i) => i < self.manufacturers@.len() && self.manufacturers@[i as int].name@
                    == name@ && self@.names.contains_key(name@) && self@.names[name@]
                    == self.manufacturers@[i as int].manufacturer_address@,
                None => !self@.names.contains_key(name@),
            },
    {
        let mut i: usize = 0;
        while i < self.manufacturers.len()
            invariant
                self.wf(),
                i <= self.manufacturers@.len(),
                forall|j: int| 0 <= j < i ==> (#[trigger] self.manufacturers@[j]).name@ != name@,
            decreases self.manufacturers@.len() - i,
        {
            if self.manufacturers[i].name == *name {
                proof {
                    let entries = by_name(self.manufacturers@);
                    assert(entries[i as int].0 == name@);
                    lemma_as_map_entry(entries, i as int);
                }
                return Some(i);
            }
            i += 1;
        }
        proof {
            let entries = by_name(self.manufacturers@);
            if has_key(entries, name@) {
                let j = choose|j: int| 0 <= j < entries.len() && (#[trigger] entries[j]).0 == name@;
                assert(self.manufacturers@[j].name@ == name@);
            }
        }
        None
    }

    /// Whether the address has registered as a manufacturer.
    pub fn is_registered(&self, user: Address) -> (registered: bool)
        requires
            self.wf(),
        ensures
            registered == self@.manufacturers.contains_key(user@),
    {
        self.find_by_address(&user).is_some()
    }

    /// Registers `caller` as the manufacturer called `name`.
    ///
    /// Refused with `AddressZero` for the null address, `AlreadyRegistered`
    /// where the caller has a record, `InvalidName` for a name under two
    /// bytes and `NameTaken` where the name has a holder, in this order.
    /// On success the registration is returned for the host to publish.
    pub fn manufacturer_registers(&mut self, caller: Address, name: String) -> (result: Result<
        Event,
        EriError,
    >)
        requires
            old(self).wf(),
        ensures
            final(self).wf(),
            final(self)@ == old(self)@.register_post(caller@, name@),
            reports(
                result,
                old(self)@.register_error(caller@, name@),
                EventView::ManufacturerRegistered {
                    manufacturer_address: caller@,
                    manufacturer_name: name@,
                },
            ),
    {
        self.address_zero_check(caller)?;
        if self.is_registered(caller) {
            return Err(EriError::AlreadyRegistered);
        }
        if name.as_str().as_bytes().len() < 2 {
            return Err(EriError::InvalidName);
        }
        if self.find_by_name(&name).is_some() {
            return Err(EriError::NameTaken);
        }
        proof {
            let records = self.manufacturers@;
            let record = ManufacturerView { name: name@, manufacturer_address: caller@ };
            lemma_as_map_push(by_address(records), caller@, record);
            lemma_as_map_push(by_name(records), name@, caller@);
        }
        let ghost before = self.manufacturers@;
        let ghost record = ManufacturerView { name: name@, manufacturer_address: caller@ };
        let manufacturer_name = name.clone();
        self.manufacturers.push(Manufacturer { name, manufacturer_address: caller });
        proof {
            assert(by_address(self.manufacturers@) =~= by_address(before).push((caller@, record)));
            assert(by_name(self.manufacturers@) =~= by_name(before).push((record.name, caller@)));
        }
        Ok(Event::ManufacturerRegistered { manufacturer_address: caller, manufacturer_name })
    }

    /// The address that holds a name; `NotFound` where nobody does.
    pub fn get_manufacturer_address_by_name(&self, name: String) -> (result: Result<
        Address,
        EriError,
    >)
        requires
            self.wf(),
        ensures
            match result {
                Ok(address) => self@.names.contains_key(name@) && address@ == self@.names[name@],
                Err(error) => !self@.names.contains_key(name@) && error == EriError::NotFound,
            },
    {
        match self.find_by_name(&name) {
            Some(i) => Ok(self.manufacturers[i].manufacturer_address),
            None => Err(EriError::NotFound),
        }
    }

    /// The address that holds a name; `NotFound` where nobody does.
    pub fn get_manufacturer_by_name(&self, manufacturer_name: String) -> (result: Result<
        Address,
        EriError,
    >)
        requires
            self.wf(),
        ensures
            match result {
                Ok(address) => self@.names.contains_key(manufacturer_name@) && address@
                    == self@.names[manufacturer_name@],
                Err(error) => !self@.names.contains_key(manufacturer_name@) && error
                    == EriError::NotFound,
            },
    {
        self.get_manufacturer_address_by_name(manufacturer_name)
    }

    /// The name and address recorded for a manufacturer's address;
    /// `NotFound` where it has no record.
    pub fn get_manufacturer(&self, user_address: Address) -> (result: Result<
        (String, Address),
        EriError,
    >)
        requires
            self.wf(),
        ensures
            match result {
                Ok(record) => self@.manufacturers.contains_key(user_address@) && record.0@
                    == self@.manufacturers[user_address@].name && record.1@
                    == self@.manufacturers[user_address@].manufacturer_address,
                Err(error) => !self@.manufacturers.contains_key(user_address@) && error
                    == EriError::NotFound,
            },
    {
        match self.find_by_address(&user_address) {
            Some(i) => Ok(
                (
                    self.manufacturers[i].name.clone(),
                    self.manufacturers[i].manufacturer_address,
                ),
            ),
            None => Err(EriError::NotFound),
        }
    }

    /// Confirms that an address is itself a registered manufacturer: the
    /// address comes back only where the record under it names it.
    pub fn get_manufacturer_address(&self, expected_manufacturer: Address) -> (result: Result<
        Address,
        EriError,
    >)
        requires
            self.wf(),
        ensures
            match result {
                Ok(address) => self@.manufacturers.contains_key(expected_manufacturer@) && address@
                    == expected_manufacturer@,
                Err(error) => !self@.manufacturers.contains_key(expected_manufacturer@) && error
                    == EriError::NotFound,
            },
    {
        match self.find_by_address(&expected_manufacturer) {
            Some(i) => {
                let recorded = self.manufacturers[i].manufacturer_address;
                if recorded.is_zero() || !recorded.same(&expected_manufacturer) {
                    return Err(EriError::NotFound);
                }
                Ok(recorded)
            },
            None => Err(EriError::NotFound),
        }
    }

    /// The digest that is signed for a struct hash in this deployment.
    pub fn hash_typed_data_v4(&self, struct_hash: FixedBytes32) -> (result: Result<
        FixedBytes32,
        EriError,
    >)
        ensures
            result matches Ok(hash) && hash@ == typed_data_digest(
                self@.domain_separator(),
                struct_hash@,
            ),
    {
        let separator = domain_separator(
            &self.domain_name_hash,
            &self.domain_version_hash,
            self.chain_id,
            &self.contract_address,
        );
        Ok(digest(&separator, &struct_hash))
    }

    /// Decides on a certificate whose signer has been recovered: the
    /// owner named by the certificate must be a registered manufacturer,
    /// and the signer must be that owner.
    pub fn check_signer(&self, owner: Address, signer: Result<Address, EriError>) -> (result:
        Result<bool, EriError>)
        requires
            self.wf(),
        ensures
            result == self@.verdict(owner@, signer_view(signer)),
    {
        let signer = match signer {
            Ok(address) => address,
            Err(_) => {
                return Err(EriError::InvalidSignature);
            },
        };
        let manufacturer = self.get_manufacturer_address(owner)?;
        if !signer.same(&manufacturer) {
            return Err(EriError::InvalidSignature);
        }
        Ok(true)
    }

    /// Verifies a certificate: the signature must be one over the
    /// certificate's digest in this deployment, made by the key of the
    /// registered manufacturer that the certificate names as its owner.
    ///
    /// `Ok(true)` is the only success. `InvalidSignature` where the
    /// signature yields no signer, then `NotFound` where the owner is no
    /// registered manufacturer, then `InvalidSignature` where the signer is
    /// not the owner.
    pub fn verify_signature(&self, certificate: Certificate, signature: Vec<u8>) -> (result: Result<
        bool,
        EriError,
    >)
        requires
            self.wf(),
        ensures
            result == self@.verify(certificate@, signature@),
    {
        let hash = struct_hash(
            &self.certificate_type_hash,
            certificate.name.as_str(),
            certificate.unique_id.as_str(),
            certificate.serial.as_str(),
            &certificate.date,
            &certificate.owner,
            &certificate.metadata_hash,
        );
        let signed = match self.hash_typed_data_v4(hash) {
            Ok(signed) => signed,
            Err(error) => {
                return Err(error);
            },
        };
        let signer = recover(&signed, signature.as_slice());
        self.check_signer(certificate.owner, signer)
    }

    /// Claims the item of a certificate for `caller`: the certificate is
    /// verified, and the ledger then creates the item under the caller,
    /// with this authority as the one that asks for it.
    ///
    /// Refused with `AddressZero` for the null caller, then with the
    /// failure of the verification, then with `ClaimFailed` where the
    /// ledger refuses the item, whatever its reason. A refused claim leaves
    /// the ledger as it was; an accepted one returns the creation of the
    /// item for the host to publish.
    pub fn user_claim_ownership(
        &self,
        ownership: &mut Ownership,
        caller: Address,
        certificate: Certificate,
        signature: Vec<u8>,
    ) -> (result: Result<Event, EriError>)
        requires
            self.wf(),
            old(ownership).wf(),
        ensures
            final(ownership).wf(),
            reports(
                result,
                self@.claim_error(old(ownership)@, caller@, certificate@, signature@),
                EventView::ItemCreated { item_id: certificate@.unique_id, owner: caller@ },
            ),
            final(ownership)@ == if result is Ok {
                old(ownership)@.create_item_post(
                    self@.contract_address,
                    certificate@.owner,
                    self@.claimed_item(caller@, certificate@),
                )
            } else {
                old(ownership)@
            },
    {
        self.address_zero_check(caller)?;
        self.verify_signature(certificate.clone(), signature)?;
        let manufacturer_name = match self.get_manufacturer(certificate.owner) {
            Ok(record) => record.0,
            Err(error) => {
                return Err(error);
            },
        };
        match ownership.create_item(
            self.contract_address,
            caller,
            certificate.name,
            certificate.unique_id,
            certificate.serial,
            certificate.date,
            certificate.owner,
            certificate.metadata,
            manufacturer_name,
        ) {
            Ok(created) => Ok(created),
            Err(_) => Err(EriError::ClaimFailed),
        }
    }

    /// Verifies a certificate and names its manufacturer, changing
    /// nothing. The failures are those of `verify_signature`.
    pub fn verify_authenticity(&self, certificate: Certificate, signature: Vec<u8>) -> (result:
        Result<(bool, String), EriError>)
        requires
            self.wf(),
        ensures
            match result {
                Ok(verdict) => self@.verify(certificate@, signature@) == Ok::<bool, EriError>(
                    verdict.0,
                ) && verdict.1@ == self@.manufacturers[certificate@.owner].name,
                Err(error) => self@.verify(certificate@, signature@) == Err::<bool, EriError>(
                    error,
                ),
            },
    {
        let owner = certificate.owner;
        let is_valid = self.verify_signature(certificate, signature)?;
        match self.get_manufacturer(owner) {
            Ok(record) => Ok((is_valid, record.0)),
            Err(error) => Err(error),
        }
    }
}

} // verus!
