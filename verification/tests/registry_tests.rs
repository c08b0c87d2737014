use horse_racing::errors::Error;
use horse_racing::identity::Identity;
use horse_racing::registry::OperatorWhiteList;
use horse_racing::registry::MAX_ADMIN_CNT;

fn ident(n: u64) -> Identity {
    Identity::from_words(n, 0, 0, 0)
}

#[test]
fn initialize_seeds_the_registry_with_the_admin() {
    let admin = ident(1);
    let registry = OperatorWhiteList::initialize(admin);
    assert_eq!(registry.operator_cnt, 1);
    assert_eq!(registry.operator_array.len(), 1);
    assert_eq!(registry.operator_array[0], admin);
}

#[test]
fn admin_appends_operators_in_call_order() {
    let admin = ident(1);
    let mut registry = OperatorWhiteList::initialize(admin);
    assert_eq!(registry.add_operator(admin, ident(2)), Ok(()));
    assert_eq!(registry.add_operator(admin, ident(3)), Ok(()));
    assert_eq!(registry.operator_cnt, 3);
    assert_eq!(registry.operator_array[0], admin);
    assert_eq!(registry.operator_array[1], ident(2));
    assert_eq!(registry.operator_array[2], ident(3));
}

#[test]
fn duplicate_operators_are_allowed_and_each_takes_a_slot() {
    let admin = ident(1);
    let mut registry = OperatorWhiteList::initialize(admin);
    assert_eq!(registry.add_operator(admin, ident(7)), Ok(()));
    assert_eq!(registry.add_operator(admin, ident(7)), Ok(()));
    assert_eq!(registry.operator_cnt, 3);
    assert_eq!(registry.operator_array[1], ident(7));
    assert_eq!(registry.operator_array[2], ident(7));
}

#[test]
fn only_the_admin_may_add_operators() {
    let admin = ident(1);
    let stranger = ident(99);
    let mut registry = OperatorWhiteList::initialize(admin);
    assert_eq!(
        registry.add_operator(stranger, ident(2)),
        Err(Error::Unauthorized)
    );
    assert_eq!(registry.operator_cnt, 1);
    assert_eq!(registry.operator_array.len(), 1);
    assert_eq!(registry.operator_array[0], admin);
}

#[test]
fn the_eleventh_add_fails_and_leaves_the_registry_unchanged() {
    let admin = ident(1);
    let mut registry = OperatorWhiteList::initialize(admin);
    let mut n: u64 = 2;
    while (registry.operator_cnt as usize) < MAX_ADMIN_CNT {
        assert_eq!(registry.add_operator(admin, ident(n)), Ok(()));
        n += 1;
    }
    assert_eq!(registry.operator_cnt, 10);
    let before: Vec<Identity> = registry.operator_array.clone();
    assert_eq!(
        registry.add_operator(admin, ident(42)),
        Err(Error::CapacityExceeded)
    );
    assert_eq!(registry.operator_cnt, 10);
    assert_eq!(registry.operator_array, before);
}

#[test]
fn is_authorized_scans_the_populated_slots() {
    let admin = ident(1);
    let mut registry = OperatorWhiteList::initialize(admin);
    assert!(registry.is_authorized(admin));
    assert!(!registry.is_authorized(ident(2)));
    assert_eq!(registry.add_operator(admin, ident(2)), Ok(()));
    assert!(registry.is_authorized(ident(2)));
    assert!(!registry.is_authorized(ident(3)));
}
