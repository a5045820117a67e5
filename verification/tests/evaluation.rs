use compile::evaluation::is_prime;

#[test]
fn prime_numbers() {
    assert!(is_prime(32749));
    assert!(is_prime(2));
    assert!(is_prime(3));
    assert!(!is_prime(4));
    assert!(!is_prime(32751));
    assert!(!is_prime(91));
}

#[test]
fn zero_is_not_prime() {
    assert!(!is_prime(0));
}
