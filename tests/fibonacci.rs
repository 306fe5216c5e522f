use fibseq::classify::{classify, Label};
use fibseq::fibonacci::{compute_term, fibonacci};

#[test]
fn term_zero() {
    assert_eq!(compute_term(0), Some(0));
    assert_eq!(fibonacci(0), 0);
}

#[test]
fn term_one() {
    assert_eq!(compute_term(1), Some(1));
    assert_eq!(fibonacci(1), 1);
}

#[test]
fn term_ten() {
    assert_eq!(compute_term(10), Some(55));
    assert_eq!(fibonacci(10), 55);
}

#[test]
fn term_twenty() {
    assert_eq!(compute_term(20), Some(6765));
    assert_eq!(fibonacci(20), 6765);
}

#[test]
fn recurrence_on_values() {
    for n in 2..=47u32 {
        let a = compute_term(n - 2).unwrap();
        let b = compute_term(n - 1).unwrap();
        assert_eq!(compute_term(n), Some(a + b));
    }
}

#[test]
fn monotone_on_values() {
    for n in 1..=47u32 {
        assert!(compute_term(n).unwrap() >= compute_term(n - 1).unwrap());
    }
}

#[test]
fn largest_term_that_fits() {
    assert_eq!(compute_term(47), Some(2971215073));
    assert_eq!(fibonacci(47), 2971215073);
}

#[test]
fn overflow_is_reported() {
    assert_eq!(compute_term(48), None);
    assert_eq!(compute_term(u32::MAX), None);
}

#[test]
fn classify_ten_is_big() {
    let label = classify(compute_term(10).unwrap());
    assert_eq!(label, Label::Big);
    assert_eq!(label.text(), "Big number");
}

#[test]
fn classify_one_is_small() {
    let label = classify(compute_term(1).unwrap());
    assert_eq!(label, Label::Small);
    assert_eq!(label.text(), "Small number");
}

#[test]
fn classify_zero() {
    let label = classify(compute_term(0).unwrap());
    assert_eq!(label, Label::Zero);
    assert_eq!(label.text(), "Zero!");
}

#[test]
fn classify_boundaries() {
    assert_eq!(classify(10), Label::Small);
    assert_eq!(classify(11), Label::Big);
    assert_eq!(classify(u32::MAX), Label::Big);
}
