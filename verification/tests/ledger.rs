use eri_registry::hashing::{item_hash, u64_to_word};
use eri_registry::ownership::Ownership;
use eri_registry::primitives::{Address, FixedBytes32, U256};
use eri_registry::types::{item_tuple, set_item, EriError, Event, Item, ItemFields};

const ADMIN: u8 = 0xEE;
const AUTHORITY: u8 = 0xBB;
const MAKER: u8 = 0x77;

fn who(byte: u8) -> Address {
    Address { bytes: [byte; 20] }
}

fn date(seconds: u64) -> U256 {
    U256 { bytes: u64_to_word(seconds) }
}

/// A ledger with the users 0x01.. ("alice"), 0x02.. ("bobby") and
/// 0x03.. ("carol").
fn ledger() -> Ownership {
    let mut ledger = Ownership::constructor(who(ADMIN)).unwrap();
    assert_eq!(
        ledger.set_authenticity(who(ADMIN), who(AUTHORITY)),
        Ok(Event::AuthenticitySet { authenticity_address: who(AUTHORITY) })
    );
    assert_eq!(
        ledger.user_registers(who(1), "alice".to_string(), 100),
        Ok(Event::UserRegistered { user_address: who(1), username: "alice".to_string() })
    );
    assert_eq!(
        ledger.user_registers(who(2), "bobby".to_string(), 101),
        Ok(Event::UserRegistered { user_address: who(2), username: "bobby".to_string() })
    );
    assert_eq!(
        ledger.user_registers(who(3), "carol".to_string(), 102),
        Ok(Event::UserRegistered { user_address: who(3), username: "carol".to_string() })
    );
    ledger
}

fn code_of(event: Event) -> FixedBytes32 {
    match event {
        Event::OwnershipCode { ownership_code, .. } => ownership_code,
        other => panic!("no claim code in {:?}", other),
    }
}

fn create(ledger: &mut Ownership, user: Address, id: &str) -> Result<Event, EriError> {
    ledger.create_item(
        who(AUTHORITY),
        user,
        format!("name of {}", id),
        id.to_string(),
        format!("serial of {}", id),
        date(1_700_000_000),
        who(MAKER),
        vec!["m1".to_string(), "m2".to_string()],
        "Acme".to_string(),
    )
}

fn fields(owner: Address, id: &str) -> ItemFields {
    (
        format!("name of {}", id),
        id.to_string(),
        format!("serial of {}", id),
        date(1_700_000_000),
        owner,
        "Acme".to_string(),
        vec!["m1".to_string(), "m2".to_string()],
    )
}

fn item(owner: Address, id: &str) -> Item {
    let f = fields(owner, id);
    Item { name: f.0, item_id: f.1, serial: f.2, date: f.3, owner: f.4, manufacturer: f.5, metadata: f.6 }
}

fn ids(list: &[ItemFields]) -> Vec<String> {
    list.iter().map(|f| f.1.clone()).collect()
}

#[test]
fn constructor_refuses_the_null_owner() {
    assert!(matches!(Ownership::constructor(Address::zero()), Err(EriError::AddressZero)));
    assert!(Ownership::constructor(who(ADMIN)).is_ok());
}

#[test]
fn nothing_works_before_the_authority_is_set() {
    let mut ledger = Ownership::constructor(who(ADMIN)).unwrap();
    assert!(ledger.authenticity().is_zero());
    assert_eq!(ledger.is_authenticity_set(), Err(EriError::AuthenticityNotSet));
    assert_eq!(
        ledger.user_registers(who(1), "alice".to_string(), 1),
        Err(EriError::AuthenticityNotSet)
    );
    assert_eq!(create(&mut ledger, who(1), "X"), Err(EriError::AuthenticityNotSet));
    assert_eq!(ledger.get_user(who(1)), Err(EriError::AuthenticityNotSet));
    assert_eq!(ledger.get_item("X".to_string()), Err(EriError::AuthenticityNotSet));
    assert_eq!(ledger.verify_ownership("X".to_string()), Err(EriError::AuthenticityNotSet));
    assert_eq!(ledger.is_owner(who(1), "X".to_string()), Err(EriError::AuthenticityNotSet));
    assert_eq!(ledger.get_all_my_items(who(1)), Err(EriError::AuthenticityNotSet));
    let code = FixedBytes32 { bytes: [1; 32] };
    assert_eq!(ledger.get_temp_owner(code), Err(EriError::AuthenticityNotSet));
    assert_eq!(
        ledger.new_owner_claim_ownership(who(1), code),
        Err(EriError::AuthenticityNotSet)
    );
    assert_eq!(ledger.owner_revoke_code(who(1), code), Err(EriError::AuthenticityNotSet));
    assert_eq!(
        ledger.generate_change_of_ownership_code(who(1), "X".to_string(), who(2)),
        Err(EriError::AuthenticityNotSet)
    );
    // the null checks of a claim code come first
    assert_eq!(
        ledger.generate_change_of_ownership_code(Address::zero(), "X".to_string(), who(2)),
        Err(EriError::AddressZero)
    );
}

#[test]
fn authority_is_set_once_by_the_owner() {
    let mut ledger = Ownership::constructor(who(ADMIN)).unwrap();
    assert_eq!(
        ledger.set_authenticity(who(ADMIN), Address::zero()),
        Err(EriError::AddressZero)
    );
    assert_eq!(ledger.set_authenticity(who(1), who(AUTHORITY)), Err(EriError::OnlyOwner));
    assert!(ledger.authenticity().is_zero());
    assert_eq!(
        ledger.set_authenticity(who(ADMIN), who(AUTHORITY)),
        Ok(Event::AuthenticitySet { authenticity_address: who(AUTHORITY) })
    );
    assert_eq!(ledger.authenticity(), who(AUTHORITY));
    assert_eq!(ledger.is_authenticity_set(), Ok(()));
    assert_eq!(ledger.set_authenticity(who(ADMIN), who(0xCC)), Err(EriError::Unauthorized));
    assert_eq!(ledger.authenticity(), who(AUTHORITY));
}

#[test]
fn usernames_need_three_bytes_and_are_held_once() {
    let mut ledger = Ownership::constructor(who(ADMIN)).unwrap();
    ledger.set_authenticity(who(ADMIN), who(AUTHORITY)).unwrap();
    assert_eq!(ledger.user_registers(who(1), "ab".to_string(), 5), Err(EriError::BadUsername));
    assert_eq!(ledger.get_user(who(1)), Err(EriError::NotFound));
    assert_eq!(
        ledger.user_registers(who(1), "abc".to_string(), 5),
        Ok(Event::UserRegistered { user_address: who(1), username: "abc".to_string() })
    );
    assert_eq!(
        ledger.user_registers(who(2), "abc".to_string(), 6),
        Err(EriError::NotAvailable)
    );
    assert_eq!(
        ledger.get_user(who(1)),
        Ok((who(1), "abc".to_string(), true, date(5)))
    );
    assert_eq!(ledger.get_user(who(2)), Err(EriError::NotFound));
}

#[test]
fn user_registration_failures() {
    let mut ledger = ledger();
    assert_eq!(
        ledger.user_registers(Address::zero(), "dave1".to_string(), 5),
        Err(EriError::AddressZero)
    );
    assert_eq!(ledger.user_registers(who(4), "".to_string(), 5), Err(EriError::BadUsername));
    assert_eq!(
        ledger.user_registers(who(1), "other".to_string(), 5),
        Err(EriError::AlreadyRegistered)
    );
    // a taken username is reported before the caller's own registration
    assert_eq!(
        ledger.user_registers(who(1), "bobby".to_string(), 5),
        Err(EriError::NotAvailable)
    );
    assert_eq!(ledger.is_registered(who(1)), Ok(()));
    assert_eq!(ledger.is_registered(who(4)), Err(EriError::NotRegistered));
    assert_eq!(ledger.is_registered(Address::zero()), Err(EriError::NotRegistered));
    assert_eq!(ledger.address_zero_check(Address::zero()), Err(EriError::AddressZero));
    assert_eq!(ledger.address_zero_check(who(4)), Ok(()));
}

#[test]
fn username_stays_taken_through_later_operations() {
    let mut ledger = ledger();
    create(&mut ledger, who(1), "X").unwrap();
    let code =
        code_of(ledger.generate_change_of_ownership_code(who(1), "X".to_string(), who(2)).unwrap());
    ledger.new_owner_claim_ownership(who(2), code).unwrap();
    assert_eq!(
        ledger.user_registers(who(9), "alice".to_string(), 500),
        Err(EriError::NotAvailable)
    );
    assert_eq!(
        ledger.get_user(who(1)),
        Ok((who(1), "alice".to_string(), true, date(100)))
    );
}

#[test]
fn created_item_is_in_the_map_and_in_the_list() {
    let mut ledger = ledger();
    assert_eq!(
        create(&mut ledger, who(1), "X"),
        Ok(Event::ItemCreated { item_id: "X".to_string(), owner: who(1) })
    );
    assert_eq!(ledger.get_item("X".to_string()), Ok(fields(who(1), "X")));
    assert_eq!(ledger.get_all_my_items(who(1)), Ok(vec![fields(who(1), "X")]));
    assert_eq!(ledger.get_all_my_items(who(2)), Ok(Vec::new()));
    assert_eq!(ledger.is_owner(who(1), "X".to_string()), Ok(true));
    assert_eq!(ledger.is_owner(who(2), "X".to_string()), Ok(false));
    assert_eq!(ledger.is_item_owner(who(1), "X".to_string()), Ok(()));
    assert_eq!(ledger.is_item_owner(who(2), "X".to_string()), Err(EriError::OnlyOwner));
    assert_eq!(ledger.is_item_owner(who(1), "Y".to_string()), Err(EriError::OnlyOwner));
    assert_eq!(
        ledger.verify_ownership("X".to_string()),
        Ok(("name of X".to_string(), "X".to_string(), "alice".to_string(), who(1)))
    );
}

#[test]
fn item_id_is_used_once() {
    let mut ledger = ledger();
    assert_eq!(
        create(&mut ledger, who(1), "X"),
        Ok(Event::ItemCreated { item_id: "X".to_string(), owner: who(1) })
    );
    assert_eq!(create(&mut ledger, who(1), "X"), Err(EriError::AlreadyClaimed));
    assert_eq!(create(&mut ledger, who(2), "X"), Err(EriError::AlreadyClaimed));
    // also after the item has changed hands
    let code =
        code_of(ledger.generate_change_of_ownership_code(who(1), "X".to_string(), who(2)).unwrap());
    ledger.new_owner_claim_ownership(who(2), code).unwrap();
    assert_eq!(create(&mut ledger, who(1), "X"), Err(EriError::AlreadyClaimed));
    assert_eq!(create(&mut ledger, who(3), "X"), Err(EriError::AlreadyClaimed));
    assert_eq!(ledger.get_all_my_items(who(1)), Ok(Vec::new()));
    assert_eq!(ledger.get_all_my_items(who(2)), Ok(vec![fields(who(2), "X")]));
}

#[test]
fn item_creation_failures() {
    let mut ledger = ledger();
    let attempt = |ledger: &mut Ownership, caller: Address, user: Address, maker: Address| {
        ledger.create_item(
            caller,
            user,
            "n".to_string(),
            "X".to_string(),
            "s".to_string(),
            date(1),
            maker,
            Vec::new(),
            "Acme".to_string(),
        )
    };
    assert_eq!(
        attempt(&mut ledger, Address::zero(), who(1), who(MAKER)),
        Err(EriError::AddressZero)
    );
    assert_eq!(
        attempt(&mut ledger, who(AUTHORITY), Address::zero(), who(MAKER)),
        Err(EriError::AddressZero)
    );
    assert_eq!(
        attempt(&mut ledger, who(AUTHORITY), who(9), who(MAKER)),
        Err(EriError::NotRegistered)
    );
    assert_eq!(attempt(&mut ledger, who(1), who(1), who(MAKER)), Err(EriError::Unauthorized));
    assert_eq!(attempt(&mut ledger, who(ADMIN), who(1), who(MAKER)), Err(EriError::Unauthorized));
    // an unregistered user is reported before an unauthorized caller
    assert_eq!(attempt(&mut ledger, who(1), who(9), who(MAKER)), Err(EriError::NotRegistered));
    assert_eq!(
        attempt(&mut ledger, who(AUTHORITY), who(1), Address::zero()),
        Err(EriError::AddressZero)
    );
    assert_eq!(ledger.get_item("X".to_string()), Err(EriError::NotFound));
    assert_eq!(ledger.verify_ownership("X".to_string()), Err(EriError::ItemDoesNotExist));
    assert_eq!(ledger.get_all_my_items(who(1)), Ok(Vec::new()));
    assert_eq!(
        attempt(&mut ledger, who(AUTHORITY), who(1), who(MAKER)),
        Ok(Event::ItemCreated { item_id: "X".to_string(), owner: who(1) })
    );
}

#[test]
fn lists_keep_the_order_of_arrival() {
    let mut ledger = ledger();
    create(&mut ledger, who(1), "A").unwrap();
    create(&mut ledger, who(2), "B").unwrap();
    create(&mut ledger, who(1), "C").unwrap();
    create(&mut ledger, who(1), "D").unwrap();
    assert_eq!(ids(&ledger.get_all_my_items(who(1)).unwrap()), vec!["A", "C", "D"]);
    assert_eq!(ids(&ledger.get_all_my_items(who(2)).unwrap()), vec!["B"]);
    let code =
        code_of(ledger.generate_change_of_ownership_code(who(1), "C".to_string(), who(2)).unwrap());
    // a pending code moves nothing
    assert_eq!(ids(&ledger.get_all_my_items(who(1)).unwrap()), vec!["A", "C", "D"]);
    ledger.new_owner_claim_ownership(who(2), code).unwrap();
    assert_eq!(ids(&ledger.get_all_my_items(who(1)).unwrap()), vec!["A", "D"]);
    assert_eq!(ids(&ledger.get_all_my_items(who(2)).unwrap()), vec!["B", "C"]);
    assert_eq!(ledger.get_all_my_items(who(3)), Ok(Vec::new()));
    assert_eq!(ledger.get_all_my_items(who(9)), Err(EriError::NotFound));
}

#[test]
fn claim_code_is_the_content_hash_of_the_item() {
    let mut ledger = ledger();
    create(&mut ledger, who(1), "X").unwrap();
    let code =
        code_of(ledger.generate_change_of_ownership_code(who(1), "X".to_string(), who(2)).unwrap());
    assert_eq!(code, item_hash(&item(who(1), "X")));
    assert_eq!(ledger.get_temp_owner(code), Ok(who(2)));
    assert_eq!(ledger.get_temp_owner(FixedBytes32 { bytes: [0; 32] }), Ok(Address::zero()));
}

#[test]
fn locked_item_is_pending_under_its_hash() {
    let mut ledger = ledger();
    create(&mut ledger, who(1), "X").unwrap();
    let snapshot = item(who(1), "X");
    let code = item_hash(&snapshot);
    assert_eq!(
        ledger.lock_item(snapshot.clone(), who(2), code),
        Ok(Event::OwnershipCode { ownership_code: code, temp_owner: who(2) })
    );
    assert_eq!(ledger.get_temp_owner(code), Ok(who(2)));
    assert_eq!(
        ledger.lock_item(snapshot, who(3), code),
        Err(EriError::ClaimAlreadyOutstanding)
    );
    assert_eq!(ledger.get_temp_owner(code), Ok(who(2)));
    assert_eq!(
        ledger.new_owner_claim_ownership(who(2), code),
        Ok(Event::OwnershipClaimed { new_owner: who(2), old_owner: who(1) })
    );
    assert_eq!(ledger.get_item("X".to_string()), Ok(fields(who(2), "X")));
}

#[test]
fn claim_code_moves_the_item_to_its_recipient() {
    let mut ledger = ledger();
    create(&mut ledger, who(1), "X").unwrap();
    let code =
        code_of(ledger.generate_change_of_ownership_code(who(1), "X".to_string(), who(2)).unwrap());
    assert_eq!(
        ledger.generate_change_of_ownership_code(who(1), "X".to_string(), who(3)),
        Err(EriError::ClaimAlreadyOutstanding)
    );
    assert_eq!(ledger.get_temp_owner(code), Ok(who(2)));
    assert_eq!(
        ledger.new_owner_claim_ownership(who(2), code),
        Ok(Event::OwnershipClaimed { new_owner: who(2), old_owner: who(1) })
    );
    assert_eq!(ledger.get_item("X".to_string()), Ok(fields(who(2), "X")));
    assert_eq!(ledger.is_owner(who(2), "X".to_string()), Ok(true));
    assert_eq!(ledger.is_owner(who(1), "X".to_string()), Ok(false));
    assert_eq!(ledger.get_all_my_items(who(1)), Ok(Vec::new()));
    assert_eq!(ledger.get_all_my_items(who(2)), Ok(vec![fields(who(2), "X")]));
    assert_eq!(
        ledger.verify_ownership("X".to_string()),
        Ok(("name of X".to_string(), "X".to_string(), "bobby".to_string(), who(2)))
    );
    // no code is left
    assert_eq!(ledger.get_temp_owner(code), Ok(Address::zero()));
    assert_eq!(ledger.new_owner_claim_ownership(who(2), code), Err(EriError::Unauthorized));
    assert_eq!(ledger.owner_revoke_code(who(1), code), Err(EriError::DoesNotExist));
}

#[test]
fn moved_item_has_a_new_claim_code() {
    let mut ledger = ledger();
    create(&mut ledger, who(1), "X").unwrap();
    let first =
        code_of(ledger.generate_change_of_ownership_code(who(1), "X".to_string(), who(2)).unwrap());
    ledger.new_owner_claim_ownership(who(2), first).unwrap();
    let second =
        code_of(ledger.generate_change_of_ownership_code(who(2), "X".to_string(), who(1)).unwrap());
    assert_ne!(first, second);
    assert_eq!(second, item_hash(&item(who(2), "X")));
    ledger.new_owner_claim_ownership(who(1), second).unwrap();
    assert_eq!(ledger.get_item("X".to_string()), Ok(fields(who(1), "X")));
    // back with its first owner the item has its first code again
    let third =
        code_of(ledger.generate_change_of_ownership_code(who(1), "X".to_string(), who(3)).unwrap());
    assert_eq!(third, first);
}

#[test]
fn revoked_claim_code_leaves_everything_as_it_was() {
    let mut ledger = ledger();
    create(&mut ledger, who(1), "X").unwrap();
    create(&mut ledger, who(1), "Y").unwrap();
    let code =
        code_of(ledger.generate_change_of_ownership_code(who(1), "X".to_string(), who(2)).unwrap());
    assert_eq!(
        ledger.owner_revoke_code(who(1), code),
        Ok(Event::CodeRevoked { item_hash: code })
    );
    assert_eq!(ledger.get_temp_owner(code), Ok(Address::zero()));
    assert_eq!(ledger.get_item("X".to_string()), Ok(fields(who(1), "X")));
    assert_eq!(ids(&ledger.get_all_my_items(who(1)).unwrap()), vec!["X", "Y"]);
    assert_eq!(ledger.new_owner_claim_ownership(who(2), code), Err(EriError::Unauthorized));
    // a new code can be made, for another recipient too
    assert_eq!(
        ledger.generate_change_of_ownership_code(who(1), "X".to_string(), who(3)),
        Ok(Event::OwnershipCode { ownership_code: code, temp_owner: who(3) })
    );
    assert_eq!(ledger.get_temp_owner(code), Ok(who(3)));
}

#[test]
fn claim_code_failures() {
    let mut ledger = ledger();
    create(&mut ledger, who(1), "X").unwrap();
    let generate = |ledger: &mut Ownership, caller: Address, id: &str, to: Address| {
        ledger.generate_change_of_ownership_code(caller, id.to_string(), to)
    };
    assert_eq!(generate(&mut ledger, Address::zero(), "X", who(2)), Err(EriError::AddressZero));
    assert_eq!(generate(&mut ledger, who(1), "X", Address::zero()), Err(EriError::AddressZero));
    assert_eq!(generate(&mut ledger, who(9), "X", who(2)), Err(EriError::NotRegistered));
    assert_eq!(generate(&mut ledger, who(3), "X", who(2)), Err(EriError::OnlyOwner));
    assert_eq!(generate(&mut ledger, who(1), "nothing", who(2)), Err(EriError::OnlyOwner));
    assert_eq!(generate(&mut ledger, who(1), "X", who(1)), Err(EriError::CannotGenerateForSelf));
    // the recipient needs no profile for the code to be made
    let code = code_of(generate(&mut ledger, who(1), "X", who(9)).unwrap());
    assert_eq!(generate(&mut ledger, who(1), "X", who(2)), Err(EriError::ClaimAlreadyOutstanding));
    assert_eq!(ledger.get_temp_owner(code), Ok(who(9)));
}

#[test]
fn acceptance_failures() {
    let mut ledger = ledger();
    create(&mut ledger, who(1), "X").unwrap();
    let code =
        code_of(ledger.generate_change_of_ownership_code(who(1), "X".to_string(), who(2)).unwrap());
    assert_eq!(
        ledger.new_owner_claim_ownership(Address::zero(), code),
        Err(EriError::AddressZero)
    );
    assert_eq!(ledger.new_owner_claim_ownership(who(9), code), Err(EriError::NotRegistered));
    // only the recipient may accept
    assert_eq!(ledger.new_owner_claim_ownership(who(3), code), Err(EriError::Unauthorized));
    assert_eq!(ledger.new_owner_claim_ownership(who(1), code), Err(EriError::Unauthorized));
    assert_eq!(
        ledger.new_owner_claim_ownership(who(2), FixedBytes32 { bytes: [4; 32] }),
        Err(EriError::Unauthorized)
    );
    assert_eq!(ledger.get_item("X".to_string()), Ok(fields(who(1), "X")));
    assert_eq!(ledger.get_temp_owner(code), Ok(who(2)));
    assert_eq!(
        ledger.new_owner_claim_ownership(who(2), code),
        Ok(Event::OwnershipClaimed { new_owner: who(2), old_owner: who(1) })
    );
}

#[test]
fn acceptance_needs_a_registered_recipient() {
    let mut ledger = ledger();
    create(&mut ledger, who(1), "X").unwrap();
    let code =
        code_of(ledger.generate_change_of_ownership_code(who(1), "X".to_string(), who(9)).unwrap());
    assert_eq!(ledger.new_owner_claim_ownership(who(9), code), Err(EriError::NotRegistered));
    ledger.user_registers(who(9), "nina9".to_string(), 200).unwrap();
    assert_eq!(
        ledger.new_owner_claim_ownership(who(9), code),
        Ok(Event::OwnershipClaimed { new_owner: who(9), old_owner: who(1) })
    );
    assert_eq!(ledger.is_owner(who(9), "X".to_string()), Ok(true));
}

#[test]
fn revocation_failures() {
    let mut ledger = ledger();
    create(&mut ledger, who(1), "X").unwrap();
    let code =
        code_of(ledger.generate_change_of_ownership_code(who(1), "X".to_string(), who(2)).unwrap());
    assert_eq!(ledger.owner_revoke_code(Address::zero(), code), Err(EriError::AddressZero));
    assert_eq!(ledger.owner_revoke_code(who(9), code), Err(EriError::NotRegistered));
    assert_eq!(
        ledger.owner_revoke_code(who(1), FixedBytes32 { bytes: [4; 32] }),
        Err(EriError::DoesNotExist)
    );
    assert_eq!(ledger.owner_revoke_code(who(2), code), Err(EriError::OnlyOwner));
    assert_eq!(ledger.owner_revoke_code(who(3), code), Err(EriError::OnlyOwner));
    assert_eq!(ledger.get_temp_owner(code), Ok(who(2)));
    assert_eq!(
        ledger.owner_revoke_code(who(1), code),
        Ok(Event::CodeRevoked { item_hash: code })
    );
}

#[test]
fn non_owner_cannot_make_a_claim_code() {
    let mut ledger = ledger();
    create(&mut ledger, who(1), "X").unwrap();
    assert_eq!(
        ledger.generate_change_of_ownership_code(who(3), "X".to_string(), who(2)),
        Err(EriError::OnlyOwner)
    );
    assert_eq!(ledger.get_temp_owner(item_hash(&item(who(1), "X"))), Ok(Address::zero()));
}

#[test]
fn item_has_one_owner_at_every_point() {
    let mut ledger = ledger();
    create(&mut ledger, who(1), "X").unwrap();
    let holders = |ledger: &Ownership| -> Vec<u8> {
        (1u8..=3)
            .filter(|b| ledger.is_owner(who(*b), "X".to_string()) == Ok(true))
            .collect()
    };
    let listed = |ledger: &Ownership| -> Vec<u8> {
        (1u8..=3)
            .filter(|b| ids(&ledger.get_all_my_items(who(*b)).unwrap()).contains(&"X".to_string()))
            .collect()
    };
    assert_eq!(holders(&ledger), vec![1]);
    assert_eq!(listed(&ledger), vec![1]);
    let code =
        code_of(ledger.generate_change_of_ownership_code(who(1), "X".to_string(), who(2)).unwrap());
    assert_eq!(holders(&ledger), vec![1]);
    assert_eq!(listed(&ledger), vec![1]);
    ledger.new_owner_claim_ownership(who(2), code).unwrap();
    assert_eq!(holders(&ledger), vec![2]);
    assert_eq!(listed(&ledger), vec![2]);
    assert_eq!(ledger.verify_ownership("X".to_string()).unwrap().3, who(2));
    let code =
        code_of(ledger.generate_change_of_ownership_code(who(2), "X".to_string(), who(3)).unwrap());
    ledger.owner_revoke_code(who(2), code).unwrap();
    assert_eq!(holders(&ledger), vec![2]);
    assert_eq!(listed(&ledger), vec![2]);
}

#[test]
fn null_address_equals_the_owner_of_a_missing_record() {
    let mut ledger = ledger();
    create(&mut ledger, who(1), "X").unwrap();
    assert_eq!(ledger.is_owner(Address::zero(), "nothing".to_string()), Ok(true));
    assert_eq!(ledger.is_owner(Address::zero(), "X".to_string()), Ok(true));
    assert_eq!(ledger.is_owner(who(1), "nothing".to_string()), Ok(false));
}

#[test]
fn set_item_keeps_the_metadata() {
    let mut record = item(who(1), "X");
    set_item(
        &mut record,
        who(2),
        "n".to_string(),
        "Y".to_string(),
        "s".to_string(),
        date(9),
        "Bolt".to_string(),
    );
    assert_eq!(record.name, "n");
    assert_eq!(record.item_id, "Y");
    assert_eq!(record.serial, "s");
    assert_eq!(record.date, date(9));
    assert_eq!(record.owner, who(2));
    assert_eq!(record.manufacturer, "Bolt");
    assert_eq!(record.metadata, vec!["m1".to_string(), "m2".to_string()]);
}

#[test]
fn item_tuple_lists_the_fields_in_order() {
    let record = item(who(1), "X");
    assert_eq!(
        item_tuple(&record, vec!["other".to_string()]),
        (
            "name of X".to_string(),
            "X".to_string(),
            "serial of X".to_string(),
            date(1_700_000_000),
            who(1),
            "Acme".to_string(),
            vec!["other".to_string()],
        )
    );
    let copy = record.clone();
    assert_eq!(copy.item_id, "X");
    assert_eq!(copy.metadata, record.metadata);
    let empty = Item::empty();
    assert!(empty.owner.is_zero());
    assert_eq!(empty.item_id, "");
    assert!(empty.metadata.is_empty());
}
