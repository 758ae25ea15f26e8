use icu::identity::{Identity, MAX_IDENTITY_LEN};

#[test]
fn identity_keeps_its_bytes() {
    let id = Identity::from_slice(&[1, 2, 3]).unwrap();
    assert_eq!(id.to_bytes(), vec![1u8, 2, 3]);
    assert_eq!(id.len(), 3);
}

#[test]
fn identity_may_be_empty() {
    let id = Identity::from_slice(&[]).unwrap();
    assert_eq!(id.to_bytes(), Vec::<u8>::new());
    assert_eq!(id.len(), 0);
}

#[test]
fn identity_rejects_thirty_bytes() {
    assert_eq!(MAX_IDENTITY_LEN, 29);
    assert!(Identity::from_slice(&[7u8; 30]).is_none());
    let longest = Identity::from_slice(&[7u8; 29]).unwrap();
    assert_eq!(longest.to_bytes(), vec![7u8; 29]);
}

#[test]
fn identity_same_compares_bytes() {
    let a = Identity::from_slice(&[1, 2, 3]).unwrap();
    let b = Identity::from_slice(&[1, 2, 3]).unwrap();
    let c = Identity::from_slice(&[1, 2, 4]).unwrap();
    let d = Identity::from_slice(&[1, 2]).unwrap();
    let e = Identity::from_slice(&[1, 2, 0]).unwrap();
    assert!(a.same(&b));
    assert!(!a.same(&c));
    assert!(!a.same(&d));
    assert!(!d.same(&e));
    assert_eq!(a, b);
    assert_ne!(a, c);
    assert_ne!(d, e);
}

#[test]
fn identities_are_ordered_by_their_bytes() {
    let empty = Identity::from_slice(&[]).unwrap();
    let a = Identity::from_slice(&[1]).unwrap();
    let b = Identity::from_slice(&[1, 0]).unwrap();
    let c = Identity::from_slice(&[2]).unwrap();
    let all = [empty, a, b, c];
    for (i, left) in all.iter().enumerate() {
        for (j, right) in all.iter().enumerate() {
            assert_eq!(left.precedes(right), i < j);
        }
    }
}
