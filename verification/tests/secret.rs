use fusion_swap::secret::{commit, verify};

fn hex(bytes: &[u8]) -> String {
    let mut s = String::new();
    for b in bytes {
        s.push_str(&format!("{:02x}", b));
    }
    s
}

#[test]
fn commit_is_keccak256_of_the_empty_string() {
    let lock = commit(&Vec::new());
    assert_eq!(lock.len(), 32);
    assert_eq!(
        hex(&lock),
        "c5d2460186f7233c927e7db2dcc703c0e500b653ca82273b7bfad8045d85a470"
    );
}

#[test]
fn commit_is_keccak256_of_abc() {
    let lock = commit(&vec![b'a', b'b', b'c']);
    assert_eq!(
        hex(&lock),
        "4e03657aea45a94fc7d47ba826c8d667c0d1e6e33a64a036ec44f58fa12d6c45"
    );
}

#[test]
fn verify_accepts_exactly_the_committed_secret() {
    let secret = vec![0xDEu8, 0xAD, 0xBE, 0xEF, 0x00, 0x11, 0x22, 0x33];
    let lock = commit(&secret);
    assert!(verify(&lock, &secret));
}

#[test]
fn verify_rejects_every_single_bit_alteration() {
    let secret = vec![0x5Au8; 32];
    let lock = commit(&secret);
    for byte in 0..secret.len() {
        for bit in 0..8 {
            let mut altered = secret.clone();
            altered[byte] ^= 1u8 << bit;
            assert!(!verify(&lock, &altered));
        }
    }
}

#[test]
fn verify_rejects_truncation_and_extension() {
    let secret = vec![1u8, 2, 3, 4];
    let lock = commit(&secret);
    assert!(!verify(&lock, &vec![1u8, 2, 3]));
    assert!(!verify(&lock, &vec![1u8, 2, 3, 4, 0]));
    assert!(!verify(&lock, &Vec::new()));
}

#[test]
fn commit_handles_multi_megabyte_inputs() {
    // Long inputs must hash normally: the wrapper lifts the host's
    // metered budget, which would otherwise abort around two megabytes.
    let secret = vec![0x42u8; 4_000_000];
    let lock = commit(&secret);
    assert_eq!(lock.len(), 32);
    assert!(verify(&lock, &secret));
    let mut altered = secret.clone();
    altered[3_999_999] ^= 1;
    assert!(!verify(&lock, &altered));
}

#[test]
fn different_secrets_get_different_locks() {
    let a = commit(&vec![0u8; 32]);
    let b = commit(&vec![1u8; 32]);
    assert_ne!(a, b);
}
