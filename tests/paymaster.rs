use stylus_paymaster::error::PaymasterError;
use stylus_paymaster::hashing::{compute_hash, domain_separator, encode_message};
use stylus_paymaster::paymaster::{Event, Host, HostLog, Paymaster};
use stylus_paymaster::recovery::{decode_recovered, normalize_v, recovery_input};
use stylus_paymaster::types::{Address, B256, U256};

fn addr(b: u8) -> Address {
    Address::new([b; 20])
}

fn word(b: u8) -> B256 {
    B256::new([b; 32])
}

fn u(x: u128) -> U256 {
    U256::from_u128(x)
}

/// A stand-in for the recovery primitive and the forwarded call. A
/// signature made by the key of `signer` over hash `h` is `r = signer`
/// (left-padded), `s = h`; recovery yields `signer` when `s` is the hash that
/// was handed in, and an unrelated address otherwise.
struct FakeHost {
    call_ok: bool,
    reply: Vec<u8>,
    calls: Vec<(Address, U256, Vec<u8>)>,
    recoveries: usize,
    stored: Vec<(Address, U256)>,
    order: Vec<&'static str>,
}

impl FakeHost {
    fn new(call_ok: bool) -> FakeHost {
        FakeHost {
            call_ok,
            reply: vec![0xab, 0xcd],
            calls: Vec::new(),
            recoveries: 0,
            stored: Vec::new(),
            order: Vec::new(),
        }
    }

    fn logged(call_ok: bool) -> HostLog<FakeHost> {
        HostLog::new(FakeHost::new(call_ok))
    }
}

impl Host for FakeHost {
    fn store_nonce(&mut self, user: Address, next: U256) {
        self.order.push("store");
        self.stored.push((user, next));
    }

    fn recover(&mut self, input: &Vec<u8>) -> Option<Vec<u8>> {
        self.order.push("recover");
        self.recoveries += 1;
        assert_eq!(input.len(), 128);
        let mut out = vec![0u8; 12];
        if input[96..128] == input[0..32] {
            out.extend_from_slice(&input[76..96]);
        } else {
            out.extend_from_slice(&[0xee; 20]);
        }
        Some(out)
    }

    fn call(&mut self, to: Address, value: U256, data: &Vec<u8>) -> Option<Vec<u8>> {
        self.order.push("call");
        self.calls.push((to, value, data.clone()));
        if self.call_ok {
            Some(self.reply.clone())
        } else {
            None
        }
    }
}

fn sign(signer: Address, hash: B256) -> (u8, B256, B256) {
    let mut r = [0u8; 32];
    r[12..32].copy_from_slice(&signer.bytes);
    (0, B256::new(r), hash)
}

const OWNER: u8 = 0x0a;
const TARGET: u8 = 0x77;
const ALICE: u8 = 0xa1;
const BOB: u8 = 0xb0;

fn far() -> U256 {
    U256::new(0, 4_000_000_000)
}

fn now() -> U256 {
    u(1_700_000_000)
}

fn ready() -> Paymaster {
    let mut p = Paymaster::new();
    p.initialize(addr(OWNER), addr(TARGET)).unwrap();
    p
}

fn run(
    p: &mut Paymaster,
    host: &mut HostLog<FakeHost>,
    signer: Address,
    from: Address,
    to: Address,
    data: &[u8],
    nonce: U256,
    deadline: U256,
) -> Result<Vec<u8>, PaymasterError> {
    let hash = p.get_message_hash(from, to, u(0), data.to_vec(), nonce, deadline);
    let (v, r, s) = sign(signer, hash);
    p.execute(host, now(), from, to, u(0), data.to_vec(), nonce, deadline, v, r, s)
}

#[test]
fn initialize_sets_owner_and_target() {
    let mut p = Paymaster::new();
    assert!(!p.is_initialized());
    assert_eq!(p.initialize(addr(OWNER), addr(TARGET)), Ok(()));
    assert!(p.is_initialized());
    assert!(!p.is_paused());
    assert_eq!(p.get_owner(), addr(OWNER));
    assert_eq!(p.get_allowed_target(), addr(TARGET));
}

#[test]
fn initialize_twice_fails_and_keeps_first_setup() {
    let mut p = ready();
    assert_eq!(p.initialize(addr(BOB), addr(0x55)), Err(PaymasterError::AlreadyInitialized));
    assert_eq!(p.get_owner(), addr(OWNER));
    assert_eq!(p.get_allowed_target(), addr(TARGET));
}

#[test]
fn example_execution_and_replay() {
    let mut p = ready();
    let mut host = FakeHost::logged(true);
    let data = vec![1u8, 2, 3];
    let hash = p.get_message_hash(addr(ALICE), addr(TARGET), u(0), data.clone(), u(0), far());
    let (v, r, s) = sign(addr(ALICE), hash);
    let out = p.execute(&mut host, now(), addr(ALICE), addr(TARGET), u(0), data.clone(), u(0), far(), v, r, s);
    assert_eq!(out, Ok(vec![0xab, 0xcd]));
    assert_eq!(
        p.get_events().last(),
        Some(&Event::MetaTxExecuted { user: addr(ALICE), target: addr(TARGET), nonce: u(0), success: true })
    );
    assert_eq!(p.get_nonce(addr(ALICE)), u(1));
    assert_eq!(host.host.calls, vec![(addr(TARGET), u(0), data.clone())]);
    let again = p.execute(&mut host, now(), addr(ALICE), addr(TARGET), u(0), data, u(0), far(), v, r, s);
    assert_eq!(again, Err(PaymasterError::InvalidNonce { expected: u(1), provided: u(0) }));
    assert_eq!(host.host.calls.len(), 1);
    assert_eq!(p.get_nonce(addr(ALICE)), u(1));
}

#[test]
fn nonces_count_up_per_user() {
    let mut p = ready();
    let mut host = FakeHost::logged(true);
    for k in 0..3u128 {
        let res = run(&mut p, &mut host, addr(ALICE), addr(ALICE), addr(TARGET), &[9], u(k), far());
        assert!(res.is_ok());
        assert_eq!(p.get_nonce(addr(ALICE)), u(k + 1));
    }
    assert_eq!(p.get_nonce(addr(BOB)), u(0));
    let res = run(&mut p, &mut host, addr(BOB), addr(BOB), addr(TARGET), &[9], u(0), far());
    assert!(res.is_ok());
    assert_eq!(p.get_nonce(addr(BOB)), u(1));
    assert_eq!(p.get_nonce(addr(ALICE)), u(3));
}

#[test]
fn wrong_nonce_leaves_counter_unchanged() {
    let mut p = ready();
    let mut host = FakeHost::logged(true);
    let res = run(&mut p, &mut host, addr(ALICE), addr(ALICE), addr(TARGET), &[], u(5), far());
    assert_eq!(res, Err(PaymasterError::InvalidNonce { expected: u(0), provided: u(5) }));
    assert_eq!(p.get_nonce(addr(ALICE)), u(0));
    assert_eq!(host.host.recoveries, 0);
    assert!(host.host.calls.is_empty());
    assert!(p.get_events().is_empty());
}

#[test]
fn hash_is_deterministic_and_binds_every_field() {
    let p = ready();
    let base = p.get_message_hash(addr(1), addr(2), u(3), vec![4, 5], u(6), u(7));
    assert_eq!(base, p.get_message_hash(addr(1), addr(2), u(3), vec![4, 5], u(6), u(7)));
    let variants = vec![
        p.get_message_hash(addr(9), addr(2), u(3), vec![4, 5], u(6), u(7)),
        p.get_message_hash(addr(1), addr(9), u(3), vec![4, 5], u(6), u(7)),
        p.get_message_hash(addr(1), addr(2), u(9), vec![4, 5], u(6), u(7)),
        p.get_message_hash(addr(1), addr(2), u(3), vec![4, 9], u(6), u(7)),
        p.get_message_hash(addr(1), addr(2), u(3), vec![4, 5], u(9), u(7)),
        p.get_message_hash(addr(1), addr(2), u(3), vec![4, 5], u(6), u(9)),
    ];
    for h in variants {
        assert_ne!(h, base);
    }
}

#[test]
fn hash_is_keccak_of_the_message_layout() {
    let data = vec![0x10u8, 0x20];
    let value = U256::new(1, 2);
    let data_hash = B256::new(alloy_primitives::keccak256(&data).0);
    let message = encode_message(&addr(1), &addr(2), &value, &data_hash, &u(6), &u(7));
    let mut expected = b"StylusTx".to_vec();
    expected.extend_from_slice(&[1u8; 20]);
    expected.extend_from_slice(&[2u8; 20]);
    let mut v = [0u8; 32];
    v[15] = 1;
    v[31] = 2;
    expected.extend_from_slice(&v);
    expected.extend_from_slice(&data_hash.bytes);
    let mut n = [0u8; 32];
    n[31] = 6;
    expected.extend_from_slice(&n);
    let mut d = [0u8; 32];
    d[31] = 7;
    expected.extend_from_slice(&d);
    assert_eq!(message, expected);
    let hash = compute_hash(&addr(1), &addr(2), &value, &data, &u(6), &u(7));
    assert_eq!(hash.bytes, alloy_primitives::keccak256(&expected).0);
    assert_ne!(hash.bytes[..], expected[..32]);
}

#[test]
fn keccak_of_empty_payload_is_known_digest() {
    let message = encode_message(&addr(0), &addr(0), &u(0), &word(0), &u(0), &u(0));
    assert_eq!(message.len(), 176);
    let empty = [
        0xc5, 0xd2, 0x46, 0x01, 0x86, 0xf7, 0x23, 0x3c, 0x92, 0x7e, 0x7d, 0xb2, 0xdc, 0xc7, 0x03, 0xc0, 0xe5, 0x00,
        0xb6, 0x53, 0xca, 0x82, 0x27, 0x3b, 0x7b, 0xfa, 0xd8, 0x04, 0x5d, 0x85, 0xa4, 0x70,
    ];
    let h = compute_hash(&addr(0), &addr(0), &u(0), &[], &u(0), &u(0));
    let with_digest = encode_message(&addr(0), &addr(0), &u(0), &B256::new(empty), &u(0), &u(0));
    assert_eq!(h.bytes, alloy_primitives::keccak256(&with_digest).0);
}

#[test]
fn domain_separator_is_ascii_tag() {
    assert_eq!(domain_separator(), b"StylusTx".to_vec());
}

#[test]
fn signature_from_other_key_is_rejected() {
    let mut p = ready();
    let mut host = FakeHost::logged(true);
    let res = run(&mut p, &mut host, addr(BOB), addr(ALICE), addr(TARGET), &[1], u(0), far());
    assert_eq!(res, Err(PaymasterError::InvalidSignature { expected: addr(ALICE), recovered: addr(BOB) }));
    assert!(host.host.calls.is_empty());
    assert_eq!(p.get_nonce(addr(ALICE)), u(1));
    assert!(p.get_events().is_empty());
}

#[test]
fn signature_over_other_fields_is_rejected() {
    let mut p = ready();
    let mut host = FakeHost::logged(true);
    let hash = p.get_message_hash(addr(ALICE), addr(TARGET), u(0), vec![1], u(0), far());
    let (v, r, s) = sign(addr(ALICE), hash);
    let res = p.execute(&mut host, now(), addr(ALICE), addr(TARGET), u(5), vec![1], u(0), far(), v, r, s);
    assert_eq!(res, Err(PaymasterError::InvalidSignature { expected: addr(ALICE), recovered: addr(0xee) }));
    assert!(host.host.calls.is_empty());
}

#[test]
fn failed_call_still_consumes_nonce() {
    let mut p = ready();
    let mut host = FakeHost::logged(false);
    let res = run(&mut p, &mut host, addr(ALICE), addr(ALICE), addr(TARGET), &[7], u(0), far());
    assert_eq!(res, Err(PaymasterError::CallFailed));
    assert_eq!(
        p.get_events().last(),
        Some(&Event::MetaTxExecuted { user: addr(ALICE), target: addr(TARGET), nonce: u(0), success: false })
    );
    assert_eq!(p.get_nonce(addr(ALICE)), u(1));
    let retry = run(&mut p, &mut host, addr(ALICE), addr(ALICE), addr(TARGET), &[7], u(0), far());
    assert_eq!(retry, Err(PaymasterError::InvalidNonce { expected: u(1), provided: u(0) }));
    assert_eq!(host.host.calls.len(), 1);
}

#[test]
fn gates_run_before_the_nonce_check() {
    let mut host = FakeHost::logged(true);
    let stale = u(0);
    let past = u(10);
    let mut fresh = Paymaster::new();
    let res = run(&mut fresh, &mut host, addr(ALICE), addr(ALICE), addr(0x33), &[], u(4), past);
    assert_eq!(res, Err(PaymasterError::NotInitialized));

    let mut p = ready();
    run(&mut p, &mut host, addr(ALICE), addr(ALICE), addr(TARGET), &[], u(0), far()).unwrap();
    let res = run(&mut p, &mut host, addr(ALICE), addr(ALICE), addr(0x33), &[], stale, past);
    assert_eq!(res, Err(PaymasterError::DeadlineExpired { deadline: past, current_time: now() }));

    p.pause(addr(OWNER)).unwrap();
    let res = run(&mut p, &mut host, addr(ALICE), addr(ALICE), addr(0x33), &[], stale, past);
    assert_eq!(res, Err(PaymasterError::ContractPaused));
    assert_eq!(p.get_nonce(addr(ALICE)), u(1));
}

#[test]
fn deadline_equal_to_now_is_accepted() {
    let mut p = ready();
    let mut host = FakeHost::logged(true);
    let res = run(&mut p, &mut host, addr(ALICE), addr(ALICE), addr(TARGET), &[], u(0), now());
    assert!(res.is_ok());
}

#[test]
fn other_target_is_refused() {
    let mut p = ready();
    let mut host = FakeHost::logged(true);
    let res = run(&mut p, &mut host, addr(ALICE), addr(ALICE), addr(0x33), &[], u(0), far());
    assert_eq!(res, Err(PaymasterError::TargetNotAllowed { target: addr(0x33) }));
    assert_eq!(p.get_nonce(addr(ALICE)), u(0));
}

#[test]
fn phases_consume_nonce_before_forwarding() {
    let mut p = ready();
    assert_eq!(p.begin_execute(now(), addr(ALICE), addr(TARGET), u(0), far()), Ok(()));
    assert_eq!(p.get_nonce(addr(ALICE)), u(1));
    let mut out = vec![0u8; 12];
    out.extend_from_slice(&[ALICE; 20]);
    assert_eq!(Paymaster::check_signer(addr(ALICE), Some(out)), Ok(()));
    assert_eq!(p.finish_execute(addr(ALICE), addr(TARGET), u(0), Some(vec![5])), Ok(vec![5]));
    assert_eq!(p.finish_execute(addr(ALICE), addr(TARGET), u(0), None), Err(PaymasterError::CallFailed));
    assert_eq!(p.get_events().len(), 2);
}

#[test]
fn recovery_failures() {
    assert_eq!(decode_recovered(None), Err(PaymasterError::EcrecoverFailed));
    assert_eq!(decode_recovered(Some(vec![1u8; 31])), Err(PaymasterError::EcrecoverFailed));
    assert_eq!(decode_recovered(Some(vec![0u8; 32])), Err(PaymasterError::EcrecoverFailed));
    assert_eq!(Paymaster::check_signer(addr(ALICE), None), Err(PaymasterError::EcrecoverFailed));
}

#[test]
fn recovered_address_is_last_twenty_bytes() {
    let mut out = vec![0xffu8; 12];
    out.extend_from_slice(&[0x42; 20]);
    assert_eq!(decode_recovered(Some(out)), Ok(addr(0x42)));
    let mut long = vec![0u8; 44];
    long.extend_from_slice(&[0x43; 20]);
    assert_eq!(decode_recovered(Some(long)), Ok(addr(0x43)));
}

#[test]
fn recovery_input_layout_and_v_normalization() {
    assert_eq!(normalize_v(0), 27);
    assert_eq!(normalize_v(1), 28);
    assert_eq!(normalize_v(27), 27);
    assert_eq!(normalize_v(28), 28);
    let input = recovery_input(&word(1), 1, &word(2), &word(3));
    assert_eq!(input.len(), 128);
    assert_eq!(input[0..32], [1u8; 32]);
    assert_eq!(input[32..63], [0u8; 31]);
    assert_eq!(input[63], 28);
    assert_eq!(input[64..96], [2u8; 32]);
    assert_eq!(input[96..128], [3u8; 32]);
}

#[test]
fn admin_operations_are_owner_only() {
    let mut p = ready();
    assert_eq!(p.pause(addr(BOB)), Err(PaymasterError::NotOwner));
    assert_eq!(p.unpause(addr(BOB)), Err(PaymasterError::NotOwner));
    assert_eq!(p.set_allowed_target(addr(BOB), addr(1)), Err(PaymasterError::NotOwner));
    assert_eq!(p.transfer_ownership(addr(BOB), addr(BOB)), Err(PaymasterError::NotOwner));
    assert!(p.get_events().is_empty());
    assert_eq!(p.get_allowed_target(), addr(TARGET));
}

#[test]
fn admin_before_initialize_fails() {
    let mut p = Paymaster::new();
    assert_eq!(p.pause(Address::zero()), Err(PaymasterError::NotOwner));
    assert!(!p.is_paused());
}

#[test]
fn admin_operations_update_and_log() {
    let mut p = ready();
    assert_eq!(p.pause(addr(OWNER)), Ok(()));
    assert!(p.is_paused());
    assert_eq!(p.unpause(addr(OWNER)), Ok(()));
    assert!(!p.is_paused());
    assert_eq!(p.set_allowed_target(addr(OWNER), addr(0x99)), Ok(()));
    assert_eq!(p.get_allowed_target(), addr(0x99));
    assert_eq!(p.transfer_ownership(addr(OWNER), addr(BOB)), Ok(()));
    assert_eq!(p.get_owner(), addr(BOB));
    assert_eq!(p.pause(addr(OWNER)), Err(PaymasterError::NotOwner));
    assert_eq!(
        p.get_events().clone(),
        vec![
            Event::PausedStateChanged { paused: true },
            Event::PausedStateChanged { paused: false },
            Event::TargetUpdated { old_target: addr(TARGET), new_target: addr(0x99) },
            Event::OwnershipTransferred { previous_owner: addr(OWNER), new_owner: addr(BOB) },
        ]
    );
}

#[test]
fn u256_order_increment_and_encoding() {
    assert!(u(1).lt(&u(2)));
    assert!(!u(2).lt(&u(2)));
    assert!(u(u128::MAX).lt(&U256::new(1, 0)));
    assert!(!U256::new(1, 0).lt(&U256::new(0, u128::MAX)));
    assert_eq!(u(5).wrapping_inc(), u(6));
    assert_eq!(u(u128::MAX).wrapping_inc(), U256::new(1, 0));
    assert_eq!(U256::new(u128::MAX, u128::MAX).wrapping_inc(), U256::zero());
    let bytes = U256::new(0x0102, 0x0304).to_be_bytes();
    let mut expected = vec![0u8; 32];
    expected[14] = 1;
    expected[15] = 2;
    expected[30] = 3;
    expected[31] = 4;
    assert_eq!(bytes, expected);
    assert!(u(3).same_as(&u(3)));
    assert!(!u(3).same_as(&U256::new(3, 0)));
}

#[test]
fn address_helpers() {
    assert!(Address::zero().is_zero());
    assert!(!addr(1).is_zero());
    assert!(addr(1).same_as(&addr(1)));
    assert!(addr(1) != addr(2));
    assert!(word(1) == word(1));
    assert!(word(1) != word(2));
}

#[test]
fn nonce_is_stored_before_any_outside_call() {
    let mut p = ready();
    let mut host = FakeHost::logged(true);
    run(&mut p, &mut host, addr(ALICE), addr(ALICE), addr(TARGET), &[1], u(0), far()).unwrap();
    assert_eq!(host.host.order, vec!["store", "recover", "call"]);
    assert_eq!(host.host.stored, vec![(addr(ALICE), u(1))]);
    let mut bad = FakeHost::logged(true);
    let res = run(&mut p, &mut bad, addr(BOB), addr(ALICE), addr(TARGET), &[1], u(1), far());
    assert!(matches!(res, Err(PaymasterError::InvalidSignature { .. })));
    assert_eq!(bad.host.order, vec!["store", "recover"]);
    let mut stale = FakeHost::logged(true);
    let res = run(&mut p, &mut stale, addr(ALICE), addr(ALICE), addr(TARGET), &[1], u(0), far());
    assert_eq!(res, Err(PaymasterError::InvalidNonce { expected: u(2), provided: u(0) }));
    assert!(stale.host.order.is_empty());
}
