use stegs::fingerprint::{fingerprint_plan, FingerprintPlan};
use stegs::glyph::encode_message;

fn fnv1a(text: &str) -> u64 {
    let mut h: u64 = 0xcbf29ce484222325;
    for b in text.bytes() {
        h ^= b as u64;
        h = h.wrapping_mul(0x100000001b3);
    }
    h
}

fn plan_of(message: &str) -> FingerprintPlan {
    let (_, encoded) = encode_message(message);
    fingerprint_plan(&encoded).expect("heights stay small")
}

#[test]
fn fingerprint_plan_of_hello_world() {
    let plan = plan_of("hello world");
    assert_eq!(plan.steps.len(), 332);
    assert_eq!(fnv1a(&format!("{:?}", plan.steps)), 0xe1329efe2354953b);
    assert_eq!(
        plan.heights,
        vec![
            5, 5, 5, 5, 7, 7, 7, 6, 6, 6, 6, 6, 6, 6, 6, 6, 6, 6, 6, 6, 6, 6, 8, 8, 8, 8, 8, 8, 8, 8,
            8, 8, 8, 8, 6, 6, 4, 4, 4, 4, 4, 4, 4, 4, 4, 4, 2, 2, 2, 2, 2, 5, 5, 5, 5, 5
        ]
    );
}

#[test]
fn fingerprint_plan_of_mistrust_authority() {
    let plan = plan_of("mistrust authority");
    assert_eq!(plan.steps.len(), 732);
    assert_eq!(fnv1a(&format!("{:?}", plan.steps)), 0xc2880ede5dab345a);
    assert_eq!(
        plan.heights,
        vec![
            11, 11, 11, 11, 11, 11, 13, 13, 13, 13, 13, 13, 13, 13, 13, 13, 13, 13, 13, 13, 13, 13,
            13, 13, 13, 15, 15, 15, 15, 15, 15, 15, 15, 15, 15, 15, 15, 15, 13, 11, 11, 11, 11, 9, 9,
            9, 9, 10, 11, 11, 11, 11, 11, 11, 11, 11
        ]
    );
}

#[test]
fn fingerprint_plan_of_placeholder() {
    let plan = plan_of("");
    assert_eq!(plan.steps.len(), 642);
    assert_eq!(fnv1a(&format!("{:?}", plan.steps)), 0x88bf51d1ff546f1e);
}

#[test]
fn fingerprint_plan_of_two_letters() {
    let plan = plan_of("ab");
    assert_eq!(plan.steps.len(), 118);
    assert_eq!(fnv1a(&format!("{:?}", plan.steps)), 0x53fe44b17c99599c);
}

#[test]
fn fingerprint_plan_of_long_message() {
    let plan = plan_of("all information should be free");
    assert_eq!(plan.steps.len(), 1303);
    assert_eq!(fnv1a(&format!("{:?}", plan.steps)), 0x7839dc99f930e322);
}

#[test]
fn fingerprint_plan_of_nothing() {
    let plan = fingerprint_plan(&[]).unwrap();
    assert!(plan.steps.is_empty());
    assert_eq!(plan.heights, vec![0; 56]);
}
