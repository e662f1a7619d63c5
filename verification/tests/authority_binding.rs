use cpmm::authority::{check_authority, find_authority, id_eq, program_id};

#[test]
fn derivation_is_deterministic() {
    let pool_id = [77u8; 32];
    let first = find_authority(&pool_id);
    let second = find_authority(&pool_id);
    assert!(first.is_some());
    assert_eq!(
        first.map(|(a, b)| (a.to_vec(), b)),
        second.map(|(a, b)| (a.to_vec(), b))
    );
}

#[test]
fn derived_identity_depends_on_the_pool() {
    let (auth_one, _) = find_authority(&[78u8; 32]).expect("no viable parameter");
    let (auth_two, _) = find_authority(&[79u8; 32]).expect("no viable parameter");
    assert_ne!(auth_one, auth_two);
    assert_ne!(auth_one, [78u8; 32]);
    assert_ne!(auth_one, program_id());
}

#[test]
fn stored_parameter_binds_the_identity() {
    let pool_id = [80u8; 32];
    let (authority, bump) = find_authority(&pool_id).expect("no viable parameter");
    assert!(check_authority(&pool_id, &authority, bump));
    // A tampered parameter or identity no longer re-derives.
    assert!(!check_authority(&pool_id, &authority, bump.wrapping_add(1)));
    let mut wrong = authority;
    wrong[31] = wrong[31].wrapping_add(1);
    assert!(!check_authority(&pool_id, &wrong, bump));
    // Nor does another pool's identity.
    assert!(!check_authority(&[81u8; 32], &authority, bump));
}

#[test]
fn identity_equality_is_bytewise() {
    let a = [5u8; 32];
    let mut b = [5u8; 32];
    assert!(id_eq(&a, &b));
    b[17] = 6;
    assert!(!id_eq(&a, &b));
}
