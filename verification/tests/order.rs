use icu::bytes::{keys_rise, precedes};
use icu::codec::ChildDescriptor;
use icu::identity::Identity;
use icu::structures::in_key_order;

fn samples() -> Vec<Vec<u8>> {
    vec![
        vec![],
        vec![0],
        vec![0, 0],
        vec![0, 255],
        vec![1],
        vec![1, 0],
        vec![1, 2, 3],
        vec![1, 2, 4],
        vec![1, 3],
        vec![2],
        vec![127],
        vec![128],
        vec![255],
        vec![255, 0],
        vec![255, 255],
    ]
}

#[test]
fn precedes_is_the_order_of_byte_vectors() {
    let all = samples();
    for a in &all {
        for b in &all {
            assert_eq!(precedes(a, b), a < b, "{:?} before {:?}", a, b);
        }
    }
}

#[test]
fn precedes_puts_a_prefix_first() {
    assert!(precedes(&vec![], &vec![0]));
    assert!(precedes(&vec![1, 2], &vec![1, 2, 0]));
    assert!(!precedes(&vec![1, 2, 0], &vec![1, 2]));
    assert!(!precedes(&vec![1, 2], &vec![1, 2]));
    assert!(!precedes(&vec![], &vec![]));
}

#[test]
fn precedes_decides_at_the_first_difference() {
    assert!(precedes(&vec![1, 9, 9], &vec![2]));
    assert!(!precedes(&vec![2], &vec![1, 9, 9]));
    assert!(precedes(&vec![5, 1, 200], &vec![5, 2, 0]));
}

#[test]
fn keys_rise_wants_each_key_after_the_one_before() {
    assert!(keys_rise(&Vec::new()));
    assert!(keys_rise(&vec![vec![7u8]]));
    assert!(keys_rise(&samples()));
    assert!(!keys_rise(&vec![vec![1u8], vec![1u8]]));
    assert!(!keys_rise(&vec![vec![1u8], vec![3u8], vec![2u8]]));
    assert!(!keys_rise(&vec![vec![2u8], vec![1u8], vec![3u8]]));
}

#[test]
fn pairs_in_key_order() {
    let pair = |key: &[u8]| (key.to_vec(), vec![0u8]);
    assert!(in_key_order(&vec![pair(&[1]), pair(&[1, 0]), pair(&[2])]));
    assert!(!in_key_order(&vec![pair(&[2]), pair(&[1])]));
    assert!(!in_key_order(&vec![pair(&[2]), pair(&[2])]));
    assert!(in_key_order(&Vec::new()));
}

#[test]
fn registry_data_in_export_order() {
    let who = Identity::from_slice(&[1]).unwrap();
    let entry = |name: &str| (name.to_string(), who);
    assert!(icu::memory::subnet::in_export_order(&vec![entry("a"), entry("ab"), entry("b")]));
    assert!(icu::memory::subnet::in_export_order(&vec![entry("Z"), entry("a"), entry("é")]));
    assert!(!icu::memory::subnet::in_export_order(&vec![entry("b"), entry("a")]));
    assert!(!icu::memory::subnet::in_export_order(&vec![entry("a"), entry("a")]));
}

#[test]
fn child_data_in_export_order() {
    let entry = |id: &[u8]| {
        (Identity::from_slice(id).unwrap(), ChildDescriptor { role: "r".to_string(), created_at: 0 })
    };
    assert!(icu::memory::child::in_export_order(&vec![entry(&[]), entry(&[0]), entry(&[0, 1])]));
    assert!(!icu::memory::child::in_export_order(&vec![entry(&[1]), entry(&[0, 1])]));
    assert!(!icu::memory::child::in_export_order(&vec![entry(&[3]), entry(&[3])]));
}
