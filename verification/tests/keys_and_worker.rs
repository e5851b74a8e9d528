use rand::SeedableRng;
use rand_chacha::ChaCha20Rng;
use vanity_gen::coordinator::{poll_decision, REPORT_INTERVAL_MS};
use vanity_gen::events::{rare_log_record, OutputMessage};
use vanity_gen::generator::KeyGenerator;
use vanity_gen::keys::{decode_private_key, derive_keypair, encode_private_key, Keypair};
use vanity_gen::rules::{JobContext, PatternConfig};
use vanity_gen::shared::{count_including, SharedSearchState};
use vanity_gen::worker::{evaluate_candidate, step_on, worker_step, WorkerState};

const SEED: [u8; 32] = [
    0x9d, 0x61, 0xb1, 0x9d, 0xef, 0xfd, 0x5a, 0x60, 0xba, 0x84, 0x4a, 0xf4, 0x92, 0xec, 0x2c, 0xc4,
    0x44, 0x49, 0xc5, 0x69, 0x7b, 0x32, 0x69, 0x19, 0x70, 0x3b, 0xac, 0x03, 0x1c, 0xae, 0x7f, 0x60,
];

const PUBLIC: [u8; 32] = [
    0xd7, 0x5a, 0x98, 0x01, 0x82, 0xb1, 0x0a, 0xb7, 0xd5, 0x4b, 0xfe, 0xd3, 0xc9, 0x64, 0x07, 0x3a,
    0x0e, 0xe1, 0x72, 0xf3, 0xda, 0xa6, 0x23, 0x25, 0xaf, 0x02, 0x1a, 0x68, 0xf7, 0x07, 0x51, 0x1a,
];

const SAMPLE_32: [u8; 32] = [
    7, 224, 70, 147, 60, 112, 144, 250, 46, 62, 133, 57, 252, 149, 220, 143, 237, 77, 21, 208, 191,
    61, 58, 206, 152, 136, 129, 103, 129, 48, 141, 139,
];

const SAMPLE_64: [u8; 64] = [
    0, 0, 10, 85, 198, 191, 71, 18, 5, 54, 6, 255, 181, 32, 227, 150, 208, 3, 157, 135, 222, 67, 50,
    23, 237, 51, 240, 123, 34, 148, 111, 84, 98, 162, 236, 133, 31, 93, 185, 142, 108, 41, 191, 1,
    138, 6, 192, 0, 46, 93, 25, 65, 243, 223, 225, 225, 85, 55, 82, 251, 109, 132, 165, 2,
];

const SAMPLE_64_TEXT: &str =
    "11cgTH4D5e8S3snD444WbbGrkepjTvWMj2jkmCGJtgn3H7qrPb1BnwapxpbGdRtHQh9t9Wbn9t6ZDGHzWpL4df";

fn halves(bytes: &[u8; 64]) -> ([u8; 32], [u8; 32]) {
    let mut first = [0u8; 32];
    let mut second = [0u8; 32];
    first.copy_from_slice(&bytes[..32]);
    second.copy_from_slice(&bytes[32..]);
    (first, second)
}

fn config(pattern: &str, min_length: usize) -> PatternConfig {
    PatternConfig { pattern: pattern.to_string(), min_length }
}

#[test]
fn public_key_is_derived_from_seed() {
    let keypair = derive_keypair(SEED);
    assert_eq!(keypair.secret_seed, SEED);
    assert_eq!(keypair.public_key, PUBLIC);
}

#[test]
fn derivation_is_deterministic() {
    let first = derive_keypair(SEED);
    let second = derive_keypair(SEED);
    assert_eq!(first.public_key, second.public_key);
    assert_eq!(first.address(), second.address());
    assert_eq!(
        encode_private_key(&first.secret_seed, &first.public_key),
        encode_private_key(&second.secret_seed, &second.public_key)
    );
}

#[test]
fn address_is_base58_of_public_key() {
    let keypair = Keypair { secret_seed: [0u8; 32], public_key: SAMPLE_32 };
    assert_eq!(keypair.address(), "XkCriyrNwS3G4rzAXtG5B1nnvb5Ka1JtCku93VqeKAr");
    let zero = Keypair { secret_seed: [0u8; 32], public_key: [0u8; 32] };
    assert_eq!(zero.address(), "11111111111111111111111111111111");
    let full = Keypair { secret_seed: [0u8; 32], public_key: [255u8; 32] };
    assert_eq!(full.address(), "JEKNVnkbo3jma5nREBBJCDoXFVeKkD56V3xKrvRmWxFG");
}

#[test]
fn private_key_is_base58_of_seed_then_public_key() {
    let (secret, public) = halves(&SAMPLE_64);
    assert_eq!(encode_private_key(&secret, &public), SAMPLE_64_TEXT);
}

#[test]
fn private_key_text_depends_on_the_order_of_the_halves() {
    let (secret, public) = halves(&SAMPLE_64);
    assert_ne!(encode_private_key(&public, &secret), SAMPLE_64_TEXT);
}

#[test]
fn private_key_is_decoded_into_its_halves() {
    let (secret, public) = halves(&SAMPLE_64);
    assert_eq!(decode_private_key(SAMPLE_64_TEXT), Some((secret, public)));
}

#[test]
fn private_key_round_trip() {
    let keypair = derive_keypair(SEED);
    let text = encode_private_key(&keypair.secret_seed, &keypair.public_key);
    assert_eq!(decode_private_key(&text), Some((SEED, PUBLIC)));
    let zero = encode_private_key(&[0u8; 32], &[0u8; 32]);
    assert_eq!(decode_private_key(&zero), Some(([0u8; 32], [0u8; 32])));
    let mixed = encode_private_key(&[255u8; 32], &SAMPLE_32);
    assert_eq!(decode_private_key(&mixed), Some(([255u8; 32], SAMPLE_32)));
}

#[test]
fn text_that_is_no_private_key_is_not_decoded() {
    assert_eq!(decode_private_key("l"), None);
    assert_eq!(decode_private_key(""), None);
    assert_eq!(decode_private_key("XkCriyrNwS3G4rzAXtG5B1nnvb5Ka1JtCku93VqeKAr"), None);
    assert_eq!(
        decode_private_key(
            "67rpwLCuS5DGA8KGZXKsVQ7dnPb9goRLoKfgGbLfQg9WoLUgNY77E2jT11fem3coV9nAkguBACzrU1iyZM4B8roS"
        ),
        None
    );
}

#[test]
fn generator_draws_well_formed_keypairs() {
    let mut generator = KeyGenerator::new().expect("the system provides entropy");
    let first = generator.next_keypair();
    let second = generator.next_keypair();
    assert_eq!(derive_keypair(first.secret_seed).public_key, first.public_key);
    assert_eq!(derive_keypair(second.secret_seed).public_key, second.public_key);
    assert_ne!(first.secret_seed, second.secret_seed);
}

#[test]
fn rare_record_has_three_lines_and_a_blank_one() {
    assert_eq!(
        rare_log_record("aaa", "Addr1", "Key9"),
        "Pattern: aaa\nAddress: Addr1\nPrivate Key: Key9\n\n"
    );
    assert_eq!(rare_log_record("", "", ""), "Pattern: \nAddress: \nPrivate Key: \n\n");
}

#[test]
fn candidate_that_hits_the_prefix_is_found() {
    let keypair = derive_keypair(SEED);
    let address = keypair.address();
    let job = JobContext::new(&address[..3], None);
    let report = evaluate_candidate(&keypair, 17, &job);
    assert!(report.rare.is_none());
    match report.found {
        Some(OutputMessage::Found { address: found_address, private_key, attempts }) => {
            assert_eq!(found_address, address);
            assert_eq!(private_key, encode_private_key(&SEED, &PUBLIC));
            assert_eq!(attempts, 17);
        }
        _ => panic!("a find was expected"),
    }
}

#[test]
fn candidate_that_misses_the_prefix_is_not_found() {
    let keypair = derive_keypair(SEED);
    let job = JobContext::new("0", None);
    let report = evaluate_candidate(&keypair, 1, &job);
    assert!(report.found.is_none());
    assert!(report.rare.is_none());
}

#[test]
fn rare_find_does_not_depend_on_the_prefix() {
    let keypair = Keypair { secret_seed: [0u8; 32], public_key: [0u8; 32] };
    let entries = vec![config("1", 32)];
    let miss = JobContext::new("2", Some(&entries));
    let report = evaluate_candidate(&keypair, 5, &miss);
    assert!(report.found.is_none());
    match report.rare {
        Some(OutputMessage::Rare { address, private_key, pattern, attempts }) => {
            assert_eq!(address, "11111111111111111111111111111111");
            assert_eq!(pattern, "11111111111111111111111111111111");
            assert_eq!(private_key, encode_private_key(&[0u8; 32], &[0u8; 32]));
            assert_eq!(attempts, 5);
        }
        _ => panic!("a rare find was expected"),
    }
    let hit = JobContext::new("11", Some(&entries));
    let both = evaluate_candidate(&keypair, 6, &hit);
    assert!(matches!(both.rare, Some(OutputMessage::Rare { .. })));
    assert!(matches!(both.found, Some(OutputMessage::Found { attempts: 6, .. })));
}

#[test]
fn rule_that_asks_too_much_gives_no_rare_find() {
    let keypair = Keypair { secret_seed: [0u8; 32], public_key: [0u8; 32] };
    let entries = vec![config("1", 33)];
    let job = JobContext::new("", Some(&entries));
    assert!(evaluate_candidate(&keypair, 1, &job).rare.is_none());
}

#[test]
fn worker_stops_without_a_candidate_when_stop_is_requested() {
    let mut generator = KeyGenerator::new().expect("the system provides entropy");
    let shared = SharedSearchState::new();
    shared.request_stop();
    let job = JobContext::new("", None);
    let report = worker_step(&mut generator, &job, &shared);
    assert_eq!(report.state, WorkerState::Stopped);
    assert!(report.rare.is_none());
    assert!(report.found.is_none());
    assert_eq!(shared.total_attempts(), 0);
}

#[test]
fn worker_stops_the_job_on_a_find() {
    let mut generator = KeyGenerator::new().expect("the system provides entropy");
    let shared = SharedSearchState::new();
    assert!(!shared.stop_requested());
    let job = JobContext::new("", None);
    let report = worker_step(&mut generator, &job, &shared);
    assert_eq!(report.state, WorkerState::Stopped);
    assert!(matches!(report.found, Some(OutputMessage::Found { attempts: 1, .. })));
    assert!(shared.stop_requested());
    assert_eq!(shared.total_attempts(), 1);
}

#[test]
fn worker_goes_on_after_a_miss() {
    let mut generator = KeyGenerator::new().expect("the system provides entropy");
    let shared = SharedSearchState::new();
    let job = JobContext::new("0", None);
    for turn in 1..=3u64 {
        let report = worker_step(&mut generator, &job, &shared);
        assert_eq!(report.state, WorkerState::Running);
        assert!(report.found.is_none());
        assert_eq!(shared.total_attempts(), turn);
    }
    assert!(!shared.stop_requested());
}

#[test]
fn stop_may_be_requested_again_after_the_job_ended() {
    let shared = SharedSearchState::new();
    shared.request_stop();
    shared.request_stop();
    assert!(shared.stop_requested());
    shared.request_stop();
    assert!(shared.stop_requested());
}

#[test]
fn attempts_are_counted_one_by_one() {
    let shared = SharedSearchState::new();
    assert_eq!(shared.total_attempts(), 0);
    assert_eq!(shared.record_attempt(), 1);
    assert_eq!(shared.record_attempt(), 2);
    assert_eq!(shared.total_attempts(), 2);
}

#[test]
fn progress_is_due_after_a_full_interval() {
    assert_eq!(REPORT_INTERVAL_MS, 250);
    let early = poll_decision(249, 10, false);
    assert!(early.progress.is_none());
    assert!(!early.finished);
    let due = poll_decision(250, 10, false);
    assert!(matches!(due.progress, Some(OutputMessage::Progress { tid: 0, attempts: 10 })));
    let late = poll_decision(10_000, 99, true);
    assert!(matches!(late.progress, Some(OutputMessage::Progress { tid: 0, attempts: 99 })));
    assert!(late.finished);
    let done = poll_decision(0, 5, true);
    assert!(done.progress.is_none());
    assert!(done.finished);
}

#[test]
fn count_includes_the_attempt_and_wraps_round() {
    assert_eq!(count_including(0), 1);
    assert_eq!(count_including(41), 42);
    assert_eq!(count_including(u64::MAX - 1), u64::MAX);
    assert_eq!(count_including(u64::MAX), 0);
}

#[test]
fn generator_needs_a_stream() {
    assert!(KeyGenerator::on_stream(None).is_none());
}

#[test]
fn generators_on_equal_streams_draw_equal_keypairs() {
    let mut first = KeyGenerator::on_stream(Some(ChaCha20Rng::from_seed([7u8; 32]))).unwrap();
    let mut second = KeyGenerator::on_stream(Some(ChaCha20Rng::from_seed([7u8; 32]))).unwrap();
    for _ in 0..3 {
        let a = first.next_keypair();
        let b = second.next_keypair();
        assert_eq!(a.secret_seed, b.secret_seed);
        assert_eq!(a.public_key, b.public_key);
        assert_eq!(derive_keypair(a.secret_seed).public_key, a.public_key);
    }
    let mut other = KeyGenerator::on_stream(Some(ChaCha20Rng::from_seed([8u8; 32]))).unwrap();
    let mut again = KeyGenerator::on_stream(Some(ChaCha20Rng::from_seed([7u8; 32]))).unwrap();
    assert_ne!(other.next_keypair().secret_seed, again.next_keypair().secret_seed);
}

#[test]
fn texts_do_not_depend_on_where_the_bytes_lie() {
    let (secret, public) = halves(&SAMPLE_64);
    let places: Vec<(u8, [u8; 32], [u8; 32], Keypair)> = (0..4u8)
        .map(|n| (n, secret, public, Keypair { secret_seed: SEED, public_key: SAMPLE_32 }))
        .collect();
    for place in places.iter() {
        assert_eq!(encode_private_key(&place.1, &place.2), SAMPLE_64_TEXT);
        assert_eq!(place.3.address(), "XkCriyrNwS3G4rzAXtG5B1nnvb5Ka1JtCku93VqeKAr");
    }
    for shift in 0..4usize {
        let mut laid = vec![0u8; 40];
        laid[shift..shift + 32].copy_from_slice(&SAMPLE_32);
        let public: &[u8; 32] = (&laid[shift..shift + 32]).try_into().unwrap();
        let keypair = Keypair { secret_seed: [0u8; 32], public_key: *public };
        assert_eq!(keypair.address(), "XkCriyrNwS3G4rzAXtG5B1nnvb5Ka1JtCku93VqeKAr");
        assert_eq!(encode_private_key(public, public), encode_private_key(&SAMPLE_32, &SAMPLE_32));
    }
}

#[test]
fn step_that_sees_the_stop_draws_no_candidate() {
    let mut generator = KeyGenerator::on_stream(Some(ChaCha20Rng::from_seed([3u8; 32]))).unwrap();
    let mut untouched = KeyGenerator::on_stream(Some(ChaCha20Rng::from_seed([3u8; 32]))).unwrap();
    let shared = SharedSearchState::new();
    let job = JobContext::new("", None);
    let report = step_on(true, &mut generator, &job, &shared);
    assert_eq!(report.state, WorkerState::Stopped);
    assert!(report.rare.is_none());
    assert!(report.found.is_none());
    assert_eq!(shared.total_attempts(), 0);
    assert!(!shared.stop_requested());
    assert_eq!(generator.next_keypair().secret_seed, untouched.next_keypair().secret_seed);
}

#[test]
fn step_that_sees_no_stop_evaluates_one_candidate() {
    let mut generator = KeyGenerator::on_stream(Some(ChaCha20Rng::from_seed([3u8; 32]))).unwrap();
    let mut twin = KeyGenerator::on_stream(Some(ChaCha20Rng::from_seed([3u8; 32]))).unwrap();
    let expected = twin.next_keypair();
    let shared = SharedSearchState::new();
    shared.record_attempt();
    let job = JobContext::new("", None);
    let report = step_on(false, &mut generator, &job, &shared);
    assert_eq!(report.state, WorkerState::Stopped);
    assert!(report.rare.is_none());
    match report.found {
        Some(OutputMessage::Found { address, private_key, attempts }) => {
            assert_eq!(address, expected.address());
            assert_eq!(
                private_key,
                encode_private_key(&expected.secret_seed, &expected.public_key)
            );
            assert_eq!(attempts, 2);
        }
        _ => panic!("a find was expected"),
    }
    assert_eq!(shared.total_attempts(), 2);
    assert!(shared.stop_requested());
    assert_eq!(generator.next_keypair().secret_seed, twin.next_keypair().secret_seed);
}

#[test]
fn step_that_misses_leaves_the_worker_running() {
    let mut generator = KeyGenerator::on_stream(Some(ChaCha20Rng::from_seed([3u8; 32]))).unwrap();
    let shared = SharedSearchState::new();
    let job = JobContext::new("0", None);
    let report = step_on(false, &mut generator, &job, &shared);
    assert_eq!(report.state, WorkerState::Running);
    assert!(report.found.is_none());
    assert_eq!(shared.total_attempts(), 1);
    assert!(!shared.stop_requested());
}
