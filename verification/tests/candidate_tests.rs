use sp_core::crypto::Ss58Codec;
use vanity_search::candidate::Candidate;
use vanity_search::candidate::ADDRESS_FORMAT;
use vanity_search::keys::SchemedPair;
use vanity_search::keys::SecretError;
use vanity_search::scheme::Scheme;

const ALICE_SR25519: &str = "5GrwvaEF5zXb26Fz9rcQpDWS57CtERHpNehXCPcNoHGKutQY";
const ALICE_ED25519: &str = "5FA9nQDVg267DEd8m1ZypXLBnvN7SFxYwV7ndqSYGiN9TTpu";

fn pair(scheme: Scheme, uri: &str) -> SchemedPair {
    match SchemedPair::from_string(scheme, uri) {
        Ok(pair) => pair,
        Err(e) => panic!("{:?}", e),
    }
}

fn base(scheme: Scheme, seed: &str, secret: [u32; 7]) -> Candidate {
    match Candidate::base(scheme, seed, secret) {
        Ok(candidate) => candidate,
        Err(e) => panic!("{:?}", e),
    }
}

#[test]
fn addresses_are_written_under_format_42() {
    assert_eq!(ADDRESS_FORMAT, 42);
}

#[test]
fn new_candidate_carries_the_address_of_its_pair() {
    let sr = Candidate::new(pair(Scheme::Sr25519, "//Alice"), "//Alice".to_string());
    assert_eq!(sr.address, ALICE_SR25519);
    assert_eq!(sr.seed, "//Alice");
    let ed = Candidate::new(pair(Scheme::Ed25519, "//Alice"), "//Alice".to_string());
    assert_eq!(ed.address, ALICE_ED25519);
    assert_eq!(ed.seed, "//Alice");
}

#[test]
fn from_string_keeps_the_scheme() {
    assert!(matches!(pair(Scheme::Sr25519, "//Alice"), SchemedPair::Sr25519(_)));
    assert!(matches!(pair(Scheme::Ed25519, "//Alice"), SchemedPair::Ed25519(_)));
}

#[test]
fn base_seed_joins_the_secret_numbers_as_hard_junctions() {
    let c = base(Scheme::Sr25519, "", [1, 2, 3, 4, 5, 6, 7]);
    assert_eq!(c.seed, "//1//2//3//4//5//6//7");
    let d = base(Scheme::Ed25519, "", [0, 4294967295, 10, 0, 99, 1000, 42]);
    assert_eq!(d.seed, "//0//4294967295//10//0//99//1000//42");
    assert!(matches!(d.pair, SchemedPair::Ed25519(_)));
}

#[test]
fn base_seed_starts_with_the_seed_prefix() {
    let phrase = "bottom drive obey lake curtain smoke basket hold race lonely fit walk";
    let c = base(Scheme::Sr25519, phrase, [1, 2, 3, 4, 5, 6, 7]);
    assert_eq!(c.seed, format!("{}//1//2//3//4//5//6//7", phrase));
    let dev = base(Scheme::Sr25519, "", [1, 2, 3, 4, 5, 6, 7]);
    assert_eq!(c.address, dev.address);
}

#[test]
fn base_address_is_that_of_the_secret_uri() {
    let c = base(Scheme::Sr25519, "//Alice", [9, 8, 7, 6, 5, 4, 3]);
    let direct = Candidate::new(
        pair(Scheme::Sr25519, "//Alice//9//8//7//6//5//4//3"),
        String::new(),
    );
    assert_eq!(c.address, direct.address);
}

#[test]
fn base_refuses_a_seed_that_is_no_phrase() {
    match Candidate::base(Scheme::Sr25519, "hello world", [1, 2, 3, 4, 5, 6, 7]) {
        Err(e) => assert_eq!(e, SecretError::InvalidPhrase),
        Ok(_) => panic!("accepted"),
    }
    match Candidate::base(Scheme::Ed25519, "hello world", [1, 2, 3, 4, 5, 6, 7]) {
        Err(e) => assert_eq!(e, SecretError::InvalidPhrase),
        Ok(_) => panic!("accepted"),
    }
}

#[test]
fn base_refuses_a_seed_with_a_forbidden_character() {
    match Candidate::base(Scheme::Sr25519, "hello!", [1, 2, 3, 4, 5, 6, 7]) {
        Err(e) => assert!(matches!(e, SecretError::InvalidFormat(_))),
        Ok(_) => panic!("accepted"),
    }
    let direct = SchemedPair::from_string(Scheme::Sr25519, "hello!//1//2//3//4//5//6//7");
    let through = Candidate::base(Scheme::Sr25519, "hello!", [1, 2, 3, 4, 5, 6, 7]);
    assert_eq!(direct.err(), through.err());
}

#[test]
fn derive_appends_the_index_to_the_seed() {
    let alice = Candidate::new(pair(Scheme::Sr25519, "//Alice"), "//Alice".to_string());
    let child = alice.derive(5);
    assert_eq!(child.seed, "//Alice//5");
    let grandchild = child.derive(4294967295);
    assert_eq!(grandchild.seed, "//Alice//5//4294967295");
    assert_eq!(alice.derive(0).seed, "//Alice//0");
}

#[test]
fn derive_gives_the_key_behind_the_hard_junction() {
    for scheme in [Scheme::Sr25519, Scheme::Ed25519] {
        let alice = Candidate::new(pair(scheme, "//Alice"), "//Alice".to_string());
        let child = alice.derive(5);
        let direct = Candidate::new(pair(scheme, "//Alice//5"), String::new());
        assert_eq!(child.address, direct.address);
        assert_ne!(child.address, alice.address);
        let other = alice.derive(6);
        assert_ne!(child.address, other.address);
    }
}

#[test]
fn derive_is_the_same_for_the_same_index() {
    let root = base(Scheme::Sr25519, "", [1, 2, 3, 4, 5, 6, 7]);
    let a = root.derive(77);
    let b = root.derive(77);
    assert_eq!(a.address, b.address);
    assert_eq!(a.seed, b.seed);
}

#[test]
fn derive_keeps_the_scheme() {
    let sr = base(Scheme::Sr25519, "", [1, 2, 3, 4, 5, 6, 7]);
    assert!(matches!(sr.derive(1).pair, SchemedPair::Sr25519(_)));
    let ed = base(Scheme::Ed25519, "", [1, 2, 3, 4, 5, 6, 7]);
    assert!(matches!(ed.derive(1).pair, SchemedPair::Ed25519(_)));
    assert!(matches!(ed.pair.derive(1), SchemedPair::Ed25519(_)));
}

#[test]
fn account_id_is_the_public_key() {
    let alice = pair(Scheme::Sr25519, "//Alice");
    assert_eq!(alice.account_id().to_ss58check(), ALICE_SR25519);
}

#[test]
fn from_string_refuses_a_bad_seed() {
    let short = SchemedPair::from_string(Scheme::Sr25519, "0x1234");
    assert_eq!(short.err(), Some(SecretError::InvalidSeed));
    let odd = SchemedPair::from_string(Scheme::Ed25519, "0xzz");
    assert_eq!(odd.err(), Some(SecretError::InvalidSeed));
}

#[test]
fn address_is_the_ss58_text_of_the_account_id() {
    for scheme in [Scheme::Sr25519, Scheme::Ed25519] {
        let c = base(scheme, "", [3, 1, 4, 1, 5, 9, 2]);
        let format = sp_core::crypto::Ss58AddressFormat::custom(ADDRESS_FORMAT);
        assert_eq!(c.address, c.pair.account_id().to_ss58check_with_version(format));
        let child = c.derive(8);
        assert_eq!(child.address, child.pair.account_id().to_ss58check_with_version(format));
        assert_eq!(child.address, Candidate::new(c.pair.derive(8), String::new()).address);
    }
}

#[test]
fn soft_junction_gives_the_same_key_every_time() {
    let first = Candidate::new(pair(Scheme::Sr25519, "//a/b"), String::new());
    let second = Candidate::new(pair(Scheme::Sr25519, "//a/b"), String::new());
    assert_eq!(first.address, second.address);
    assert_eq!(first.derive(3).address, second.derive(3).address);
    assert_ne!(first.address, Candidate::new(pair(Scheme::Sr25519, "//a"), String::new()).address);
}

#[test]
fn ed25519_refuses_a_soft_junction() {
    let soft = SchemedPair::from_string(Scheme::Ed25519, "//a/b");
    assert_eq!(soft.err(), Some(SecretError::InvalidPath));
}
