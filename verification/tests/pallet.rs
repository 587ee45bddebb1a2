use encrypted_transactions::config::{Config, Key, System};
use encrypted_transactions::execution::{weights_of, Execution, Step};
use encrypted_transactions::fee::ChargeStep;
use encrypted_transactions::pallet::{has_identifier, identifier, Pallet};
use encrypted_transactions::session::StorageItem;
use encrypted_transactions::storage::StorageMap;
use encrypted_transactions::substrate::Substrate;
use encrypted_transactions::types::{
    CallError, Environment, Error, Event, ExistenceRequirement, FeeCharge, Origin,
    TxnRegistryDetails, WithdrawReasons,
};
use parity_scale_codec::{Decode, Encode};

type AccountId = [u8; 32];
type Hash = [u8; 32];

/// A runtime whose calls are pairs of a weight and a number.
#[derive(PartialEq, Eq, Debug)]
struct Runtime;

impl System for Runtime {
    type AccountId = AccountId;
    type Index = u32;
    type Hash = Hash;

    fn encode_account(account: &AccountId) -> Vec<u8> {
        Substrate::encode_account(account)
    }

    fn encode_index(index: &u32) -> Vec<u8> {
        Substrate::encode_index(index)
    }

    fn hash_of(bytes: &Vec<u8>) -> Hash {
        Substrate::hash_of(bytes)
    }
}

impl Config for Runtime {
    type AuthorityId = u64;
    type Call = (u64, u8);

    fn decode_calls(bytes: &Vec<u8>) -> Option<Vec<(u64, u8)>> {
        Decode::decode(&mut &bytes[..]).ok()
    }

    fn weight_of(call: &(u64, u8)) -> u64 {
        call.0
    }
}

const USER: AccountId = [7; 32];
const BUILDER: AccountId = [1; 32];
const EXECUTOR: AccountId = [2; 32];
const STRANGER: AccountId = [3; 32];

const IDENTIFIER: Hash = [
    33, 221, 230, 219, 11, 200, 151, 245, 10, 112, 36, 94, 70, 234, 91, 33, 127, 0, 80, 203, 61,
    254, 123, 180, 218, 153, 145, 22, 32, 223, 126, 20,
];

fn environment(current_index: u32) -> Environment {
    Environment { current_index, fee: 1_000, doubly_encrypted_call_max_length: 4 }
}

/// A fee that the user owes.
fn fee(amount: u128) -> FeeCharge<AccountId> {
    FeeCharge {
        token: 0,
        who: USER,
        amount,
        reasons: WithdrawReasons {
            transaction_payment: true,
            transfer: true,
            reserve: true,
            fee: true,
            tip: true,
        },
        new_balance: 0,
        existence_requirement: ExistenceRequirement::AllowDeath,
    }
}

/// Submits the call `[1, 2, 3]` with nonce 5 in a session.
fn submit(pallet: &mut Pallet<Runtime>, session: u32) {
    let result = pallet.submit_doubly_encrypted_transaction(
        &environment(session),
        Origin::Signed(USER),
        vec![1, 2, 3],
        5,
        100,
        BUILDER,
        EXECUTOR,
        Ok(()),
    );
    assert_eq!(result, Ok(()));
}

fn record(pallet: &Pallet<Runtime>, session: u32, user: AccountId) -> Option<(u32, u128, bool)> {
    pallet.txn_record(session, &user).get(&IDENTIFIER).copied()
}

/// The pallet's storage, as plain values.
fn snapshot(
    pallet: Pallet<Runtime>,
) -> (
    Vec<(AccountId, u64)>,
    Vec<(Hash, TxnRegistryDetails<AccountId, u32>)>,
    Vec<(AccountId, Vec<Hash>)>,
    Vec<(AccountId, Vec<Hash>)>,
    Vec<((u32, AccountId), Vec<(Hash, (u32, u128, bool))>)>,
    Vec<((u32, AccountId), Vec<Hash>)>,
    Vec<Event<Runtime>>,
) {
    (
        pallet.keys.into_pairs(),
        pallet.txn_registry.into_pairs(),
        pallet.doubly_encrypted_queue.into_pairs(),
        pallet.singly_encrypted_queue.into_pairs(),
        pallet.txn_record.into_pairs().into_iter().map(|(k, v)| (k, v.into_pairs())).collect(),
        pallet.execd_txn_record.into_pairs(),
        pallet.events,
    )
}

fn started(result: Result<Execution<Runtime>, CallError>) -> Execution<Runtime> {
    match result {
        Ok(execution) => execution,
        Err(error) => panic!("{:?}", error),
    }
}

fn refused(result: Result<Execution<Runtime>, CallError>) -> CallError {
    match result {
        Ok(_) => panic!("the calls were to be refused"),
        Err(error) => error,
    }
}

#[test]
fn account_is_encoded_as_its_bytes() {
    let mut account: AccountId = [0; 32];
    for i in 0..32 {
        account[i] = i as u8;
    }
    assert_eq!(Substrate::encode_account(&account), account.to_vec());
}

#[test]
fn index_is_encoded_little_endian() {
    assert_eq!(Substrate::encode_index(&0x0102_0304), vec![4, 3, 2, 1]);
    assert_eq!(Substrate::encode_index(&5), vec![5, 0, 0, 0]);
    assert_eq!(Substrate::encode_index(&u32::MAX), vec![255, 255, 255, 255]);
}

#[test]
fn identifier_is_the_hash_of_call_user_and_nonce() {
    assert_eq!(identifier::<Substrate>(&vec![1, 2, 3], &USER, &5), IDENTIFIER);
    assert_eq!(
        identifier::<Substrate>(&vec![1, 2, 3], &USER, &0x0102_0304),
        [
            96, 110, 89, 178, 199, 253, 106, 115, 182, 196, 65, 140, 43, 68, 179, 57, 175, 100,
            255, 181, 14, 48, 141, 18, 74, 17, 140, 156, 241, 143, 135, 152,
        ],
    );
    assert_eq!(
        identifier::<Substrate>(&vec![9; 40], &USER, &5),
        [
            251, 142, 208, 31, 121, 147, 252, 127, 158, 195, 220, 126, 4, 179, 149, 14, 190, 43,
            243, 213, 196, 226, 94, 178, 193, 246, 236, 139, 31, 179, 143, 238,
        ],
    );
}

#[test]
fn short_calls_have_an_identifier() {
    assert!(has_identifier::<Substrate>(&vec![], &USER, &5));
    assert!(has_identifier::<Runtime>(&vec![9; 4_000], &USER, &u32::MAX));
}

#[test]
fn different_transactions_have_different_identifiers() {
    let one = identifier::<Substrate>(&vec![1, 2, 3], &USER, &5);
    assert_ne!(one, identifier::<Substrate>(&vec![1, 2], &USER, &5));
    assert_ne!(one, identifier::<Substrate>(&vec![1, 2, 3], &STRANGER, &5));
    assert_ne!(one, identifier::<Substrate>(&vec![1, 2, 3], &USER, &6));
}

#[test]
fn keys_compare_by_value() {
    let mut other = USER;
    assert!(USER.same(&other));
    other[31] = 0;
    assert!(!USER.same(&other));
    assert!((1u32, USER).same(&(1u32, USER)));
    assert!(!(1u32, USER).same(&(2u32, USER)));
    assert!(!(1u32, USER).same(&(1u32, other)));
    assert_eq!((1u32, other).duplicate(), (1, other));
    assert!((1u32, 2u128, true).same(&(1, 2, true)));
    assert!(!(1u32, 2u128, true).same(&(1, 2, false)));
    assert!(!(1u32, 2u128, true).same(&(1, 3, true)));
    assert_eq!((1u32, 2u128, true).duplicate(), (1, 2, true));
}

#[test]
fn fee_is_due_where_a_user_signed_for_a_short_call() {
    let due = Pallet::<Runtime>::fee_charge(
        &environment(3),
        &Origin::Signed(USER),
        &vec![1, 2, 3, 4],
    );
    assert_eq!(due, Ok(fee(1_000)));
    let due = Pallet::<Runtime>::fee_charge(
        &environment(3),
        &Origin::Signed(USER),
        &vec![1, 2, 3, 4, 5],
    );
    assert_eq!(due, Err(CallError::Module(Error::DoublyEncryptedCallMaxLengthExceeded)));
    for origin in vec![Origin::Root, Origin::Unsigned, Origin::Other] {
        let due = Pallet::<Runtime>::fee_charge(&environment(3), &origin, &vec![1]);
        assert_eq!(due, Err(CallError::BadOrigin));
    }
}

#[test]
fn fee_is_checked_then_withdrawn_then_handed_over() {
    let refusal = Err(sp_runtime::DispatchError::Other("too poor"));
    let step = ChargeStep::first(fee(1_000));
    assert_eq!(step, ChargeStep::Check(fee(1_000)));
    let step = step.next(Ok(()));
    assert_eq!(step, ChargeStep::Withdraw(fee(1_000)));
    let step = step.next(Ok(()));
    assert_eq!(step, ChargeStep::HandOver);
    let step = step.next(Ok(()));
    assert_eq!(step, ChargeStep::Ended(Ok(())));
    assert_eq!(step.next(refusal), ChargeStep::Ended(Ok(())));
    assert_eq!(ChargeStep::Check(fee(1)).next(refusal), ChargeStep::Ended(refusal));
    assert_eq!(ChargeStep::Withdraw(fee(1)).next(refusal), ChargeStep::Ended(refusal));
    assert_eq!(ChargeStep::<AccountId>::Ended(refusal).next(Ok(())), ChargeStep::Ended(refusal));
}

#[test]
fn a_session_without_a_record_gives_the_empty_one() {
    let mut pallet: Pallet<Runtime> = Pallet::new();
    assert_eq!(pallet.txn_record(3, &USER).into_pairs(), vec![]);
    submit(&mut pallet, 3);
    assert_eq!(pallet.txn_record(3, &USER).into_pairs(), vec![(IDENTIFIER, (5, 1_000, false))]);
    assert_eq!(pallet.txn_record(3, &STRANGER).into_pairs(), vec![]);
    assert_eq!(pallet.txn_record(4, &USER).into_pairs(), vec![]);
    assert_eq!(pallet.txn_record.into_pairs().len(), 1);
}

#[test]
fn submission_registers_queues_and_records() {
    let mut pallet: Pallet<Runtime> = Pallet::new();
    submit(&mut pallet, 3);
    assert_eq!(
        pallet.txn_registry(&IDENTIFIER),
        Some(&TxnRegistryDetails {
            doubly_encrypted_call: vec![1, 2, 3],
            user: USER,
            nonce: 5,
            weight: 100,
            builder: BUILDER,
            executor: EXECUTOR,
            singly_encrypted_call: None,
            decrypted_call: None,
        }),
    );
    assert_eq!(pallet.doubly_encrypted_queue(&BUILDER), vec![IDENTIFIER]);
    assert_eq!(pallet.doubly_encrypted_queue(&EXECUTOR), Vec::<Hash>::new());
    assert_eq!(pallet.singly_encrypted_queue(&EXECUTOR), Vec::<Hash>::new());
    assert_eq!(record(&pallet, 3, USER), Some((5, 1_000, false)));
    assert_eq!(record(&pallet, 2, USER), None);
    assert_eq!(
        pallet.events,
        vec![Event::DoublyEncryptedTxnSubmitted(USER, 5, IDENTIFIER)],
    );
}

#[test]
fn refused_submission_leaves_no_trace() {
    let outside = sp_runtime::DispatchError::Other("no funds");
    let cases = vec![
        (Origin::Root, vec![1], Ok(()), CallError::BadOrigin),
        (Origin::Unsigned, vec![1], Ok(()), CallError::BadOrigin),
        (Origin::Other, vec![1], Err(outside), CallError::BadOrigin),
        (
            Origin::Signed(USER),
            vec![1; 5],
            Err(outside),
            CallError::Module(Error::DoublyEncryptedCallMaxLengthExceeded),
        ),
        (Origin::Signed(USER), vec![1; 4], Err(outside), CallError::Outside(outside)),
    ];
    for (origin, call, withdrawal, error) in cases {
        let mut pallet: Pallet<Runtime> = Pallet::new();
        let result = pallet.submit_doubly_encrypted_transaction(
            &environment(3),
            origin,
            call,
            5,
            100,
            BUILDER,
            EXECUTOR,
            withdrawal,
        );
        assert_eq!(result, Err(error));
        assert_eq!(snapshot(pallet), snapshot(Pallet::new()));
    }
}

#[test]
fn submitting_twice_queues_twice_and_registers_once() {
    let mut pallet: Pallet<Runtime> = Pallet::new();
    submit(&mut pallet, 3);
    submit(&mut pallet, 3);
    assert_eq!(pallet.doubly_encrypted_queue(&BUILDER), vec![IDENTIFIER, IDENTIFIER]);
    let result = pallet.submit_singly_encrypted_transaction(Origin::Unsigned, IDENTIFIER, vec![8]);
    assert_eq!(result, Ok(()));
    assert_eq!(pallet.doubly_encrypted_queue(&BUILDER), Vec::<Hash>::new());
    assert_eq!(pallet.singly_encrypted_queue(&EXECUTOR), vec![IDENTIFIER]);
    assert_eq!(pallet.txn_registry.into_pairs().len(), 1);
}

#[test]
fn resubmission_has_the_same_identifier_and_replaces_the_rest() {
    let mut pallet: Pallet<Runtime> = Pallet::new();
    submit(&mut pallet, 3);
    assert_eq!(
        pallet.submit_singly_encrypted_transaction(Origin::Unsigned, IDENTIFIER, vec![8]),
        Ok(()),
    );
    let again = Environment { fee: 2_000, ..environment(4) };
    let origin = Origin::Signed(USER);
    assert_eq!(
        Pallet::<Runtime>::fee_charge(&again, &origin, &vec![1, 2, 3]),
        Ok(fee(2_000)),
    );
    let result = pallet.submit_doubly_encrypted_transaction(
        &again,
        origin,
        vec![1, 2, 3],
        5,
        7,
        STRANGER,
        BUILDER,
        Ok(()),
    );
    assert_eq!(result, Ok(()));
    assert_eq!(pallet.doubly_encrypted_queue(&BUILDER), Vec::<Hash>::new());
    assert_eq!(pallet.doubly_encrypted_queue(&STRANGER), vec![IDENTIFIER]);
    assert_eq!(pallet.singly_encrypted_queue(&EXECUTOR), vec![IDENTIFIER]);
    assert_eq!(record(&pallet, 3, USER), Some((5, 1_000, false)));
    assert_eq!(record(&pallet, 4, USER), Some((5, 2_000, false)));
    assert_eq!(
        pallet.events.last(),
        Some(&Event::DoublyEncryptedTxnSubmitted(USER, 5, IDENTIFIER)),
    );
    assert_eq!(
        pallet.txn_registry.into_pairs(),
        vec![(
            IDENTIFIER,
            TxnRegistryDetails {
                doubly_encrypted_call: vec![1, 2, 3],
                user: USER,
                nonce: 5,
                weight: 7,
                builder: STRANGER,
                executor: BUILDER,
                singly_encrypted_call: None,
                decrypted_call: None,
            },
        )],
    );
}

#[test]
fn every_transaction_is_registered_under_its_identifier() {
    let mut pallet: Pallet<Runtime> = Pallet::new();
    submit(&mut pallet, 3);
    for nonce in 6..9 {
        let result = pallet.submit_doubly_encrypted_transaction(
            &environment(3),
            Origin::Signed(STRANGER),
            vec![4],
            nonce,
            100,
            BUILDER,
            EXECUTOR,
            Ok(()),
        );
        assert_eq!(result, Ok(()));
    }
    let second = identifier::<Runtime>(&vec![4], &STRANGER, &6);
    assert_eq!(
        pallet.submit_singly_encrypted_transaction(Origin::Unsigned, second, vec![8]),
        Ok(()),
    );
    refused(pallet.submit_decrypted_transaction(3, Origin::Unsigned, IDENTIFIER, vec![4], 0));
    pallet.on_before_session_ending(3);
    let registered = pallet.txn_registry.into_pairs();
    assert_eq!(registered.len(), 4);
    for (key, details) in registered {
        assert_eq!(
            key,
            identifier::<Runtime>(&details.doubly_encrypted_call, &details.user, &details.nonce),
        );
    }
}

#[test]
fn transaction_goes_from_queue_to_queue() {
    let mut pallet: Pallet<Runtime> = Pallet::new();
    submit(&mut pallet, 3);
    let other: Hash = [99; 32];
    pallet.doubly_encrypted_queue.insert(BUILDER, vec![other, IDENTIFIER, [98; 32]]);
    assert_eq!(
        pallet.submit_singly_encrypted_transaction(Origin::Unsigned, IDENTIFIER, vec![8, 9]),
        Ok(()),
    );
    assert_eq!(pallet.doubly_encrypted_queue(&BUILDER), vec![other, [98; 32]]);
    assert_eq!(pallet.singly_encrypted_queue(&EXECUTOR), vec![IDENTIFIER]);
    let bytes = vec![(40u64, 1u8), (60, 2)].encode();
    let execution = started(pallet.submit_decrypted_transaction(
        4,
        Origin::Unsigned,
        IDENTIFIER,
        bytes.clone(),
        0,
    ));
    assert_eq!(execution.calls, vec![(40, 1), (60, 2)]);
    assert_eq!(execution.user_account, USER);
    assert_eq!(execution.identifier, IDENTIFIER);
    assert_eq!(execution.nonce, 5);
    assert_eq!(pallet.singly_encrypted_queue(&EXECUTOR), Vec::<Hash>::new());
    assert_eq!(pallet.execd_txn_record(4, &USER), vec![IDENTIFIER]);
    assert_eq!(pallet.execd_txn_record(3, &USER), Vec::<Hash>::new());
    assert_eq!(
        pallet.txn_registry(&IDENTIFIER),
        Some(&TxnRegistryDetails {
            doubly_encrypted_call: vec![1, 2, 3],
            user: USER,
            nonce: 5,
            weight: 100,
            builder: BUILDER,
            executor: EXECUTOR,
            singly_encrypted_call: Some(vec![8, 9]),
            decrypted_call: Some(bytes),
        }),
    );
    assert_eq!(
        pallet.events,
        vec![
            Event::DoublyEncryptedTxnSubmitted(USER, 5, IDENTIFIER),
            Event::SinglyEncryptedTxnSubmitted(USER, 5, IDENTIFIER),
            Event::DecryptedTransactionSubmitted(USER, 5, IDENTIFIER),
        ],
    );
}

#[test]
fn unknown_transaction_has_no_layers_to_take_off() {
    let mut pallet: Pallet<Runtime> = Pallet::new();
    let missing = CallError::Module(Error::TxnDoesNotExistsInRegistry);
    assert_eq!(
        pallet.submit_singly_encrypted_transaction(Origin::Unsigned, IDENTIFIER, vec![8]),
        Err(missing),
    );
    let result =
        pallet.submit_decrypted_transaction(4, Origin::Unsigned, IDENTIFIER, vec![0], 0);
    assert_eq!(refused(result), missing);
    assert_eq!(snapshot(pallet), snapshot(Pallet::new()));
}

#[test]
fn layers_come_off_without_a_signature_only() {
    for origin in vec![Origin::Root, Origin::Signed(BUILDER), Origin::Other] {
        let mut pallet: Pallet<Runtime> = Pallet::new();
        submit(&mut pallet, 3);
        let result = pallet.submit_singly_encrypted_transaction(origin, IDENTIFIER, vec![8]);
        assert_eq!(result, Err(CallError::BadOrigin));
        assert_eq!(pallet.doubly_encrypted_queue(&BUILDER), vec![IDENTIFIER]);
        assert_eq!(pallet.events.len(), 1);
    }
    for origin in vec![Origin::Root, Origin::Signed(EXECUTOR), Origin::Other] {
        let mut pallet: Pallet<Runtime> = Pallet::new();
        submit(&mut pallet, 3);
        let result = pallet.submit_decrypted_transaction(3, origin, IDENTIFIER, vec![0], 0);
        assert_eq!(refused(result), CallError::BadOrigin);
        assert_eq!(pallet.events.len(), 1);
    }
}

#[test]
fn bytes_that_encode_no_calls_are_recorded_and_refused() {
    let mut pallet: Pallet<Runtime> = Pallet::new();
    submit(&mut pallet, 3);
    let result =
        pallet.submit_decrypted_transaction(3, Origin::Unsigned, IDENTIFIER, vec![4, 1], 0);
    assert_eq!(refused(result), CallError::Module(Error::CallDeserilizationFailed));
    assert_eq!(pallet.execd_txn_record(3, &USER), vec![IDENTIFIER]);
    let details = pallet.txn_registry(&IDENTIFIER).unwrap();
    assert_eq!(details.decrypted_call, Some(vec![4, 1]));
    assert_eq!(
        pallet.events.last(),
        Some(&Event::DecryptedTransactionSubmitted(USER, 5, IDENTIFIER)),
    );
}

#[test]
fn calls_that_weigh_too_much_are_recorded_and_refused() {
    let mut pallet: Pallet<Runtime> = Pallet::new();
    submit(&mut pallet, 3);
    let bytes = vec![(40u64, 1u8), (61, 2)].encode();
    let result =
        pallet.submit_decrypted_transaction(3, Origin::Unsigned, IDENTIFIER, bytes, 1_000_000);
    assert_eq!(refused(result), CallError::Module(Error::IncorrectCallWeight));
    assert_eq!(pallet.execd_txn_record(3, &USER), vec![IDENTIFIER]);
}

#[test]
fn only_the_chain_has_calls_executed() {
    let run = |origin, calls, weight| {
        Pallet::<Runtime>::execute_calls(origin, calls, USER, IDENTIFIER, 5, weight)
    };
    assert_eq!(refused(run(Origin::Signed(USER), vec![], 0)), CallError::BadOrigin);
    assert_eq!(refused(run(Origin::Unsigned, vec![], 0)), CallError::BadOrigin);
    assert_eq!(refused(run(Origin::Other, vec![], 0)), CallError::BadOrigin);
    assert_eq!(started(run(Origin::Root, vec![], 0)).calls, vec![]);
    assert_eq!(started(run(Origin::Root, vec![(7, 1), (3, 2)], 10)).calls, vec![(7, 1), (3, 2)]);
    let heavy = CallError::Module(Error::IncorrectCallWeight);
    assert_eq!(refused(run(Origin::Root, vec![(7, 1), (3, 2)], 9)), heavy);
    let most = u64::MAX;
    assert_eq!(refused(run(Origin::Root, vec![(most, 1), (1, 2)], most)), heavy);
    assert_eq!(started(run(Origin::Root, vec![(most, 1)], most)).calls, vec![(most, 1)]);
}

#[test]
fn given_weights_decide_whether_calls_are_executed() {
    let run = |weights: Vec<u64>, weight| {
        let calls = vec![(1, 1), (1, 2)];
        let origin = Origin::Root;
        Pallet::<Runtime>::execute_weighed_calls(origin, calls, &weights, USER, IDENTIFIER, 5, weight)
    };
    assert_eq!(started(run(vec![6, 5], 11)).calls, vec![(1, 1), (1, 2)]);
    assert_eq!(refused(run(vec![6, 5], 10)), CallError::Module(Error::IncorrectCallWeight));
    assert_eq!(weights_of::<Runtime>(&vec![(6, 1), (5, 2)]), vec![6, 5]);
}

#[test]
fn given_calls_are_executed_for_the_user() {
    let mut pallet: Pallet<Runtime> = Pallet::new();
    pallet.register_transaction(
        &environment(3),
        [42; 32],
        vec![1, 2, 3],
        USER,
        5,
        10,
        BUILDER,
        EXECUTOR,
    );
    assert_eq!(pallet.doubly_encrypted_queue(&BUILDER), vec![[42; 32]]);
    let execution = started(pallet.submit_decoded_transaction(
        3,
        Origin::Unsigned,
        [42; 32],
        vec![],
        Some(vec![(1, 1)]),
        &vec![10],
    ));
    assert_eq!(execution.calls, vec![(1, 1)]);
    assert_eq!(execution.user_account, USER);
    let result = pallet.submit_decoded_transaction(
        3,
        Origin::Unsigned,
        [42; 32],
        vec![],
        None,
        &vec![],
    );
    assert_eq!(refused(result), CallError::Module(Error::CallDeserilizationFailed));
}

#[test]
fn every_outcome_is_made_known_in_order() {
    let mut pallet: Pallet<Runtime> = Pallet::new();
    let mut execution = started(Pallet::<Runtime>::execute_calls(
        Origin::Root,
        vec![(1, 10), (1, 20), (1, 30)],
        USER,
        IDENTIFIER,
        5,
        3,
    ));
    let failure = sp_runtime::DispatchError::CannotLookup;
    let mut dispatched = vec![];
    loop {
        match pallet.next_step(execution) {
            Step::Dispatch(call, origin, rest) => {
                assert_eq!(origin, Origin::Signed(USER));
                dispatched.push(call.1);
                let outcome = if call.1 == 20 { Err(failure) } else { Ok(()) };
                pallet.call_dispatched(&rest, outcome);
                execution = rest;
            }
            Step::Finished => {
                break;
            }
        }
    }
    assert_eq!(dispatched, vec![10, 20, 30]);
    assert_eq!(
        pallet.events,
        vec![
            Event::Called(Ok(()), USER, 5, IDENTIFIER),
            Event::Called(Err(CallError::Outside(failure)), USER, 5, IDENTIFIER),
            Event::Called(Ok(()), USER, 5, IDENTIFIER),
            Event::CallsExecuted(USER, 5, IDENTIFIER),
        ],
    );
}

#[test]
fn unexecuted_transaction_is_refunded_in_the_next_session() {
    let mut pallet: Pallet<Runtime> = Pallet::new();
    submit(&mut pallet, 3);
    let nothing = Err(CallError::Module(Error::NoMarkedRefund));
    assert_eq!(pallet.refund_user(3, Origin::Signed(USER), IDENTIFIER), nothing);
    assert_eq!(pallet.refund_user(5, Origin::Signed(USER), IDENTIFIER), nothing);
    assert_eq!(pallet.refund_user(4, Origin::Signed(STRANGER), IDENTIFIER), nothing);
    assert_eq!(pallet.refund_user(4, Origin::Signed(USER), [0; 32]), nothing);
    assert_eq!(pallet.events.len(), 1);
    assert_eq!(pallet.refund_user(4, Origin::Signed(USER), IDENTIFIER), Ok(()));
    assert_eq!(record(&pallet, 3, USER), Some((5, 1_000, false)));
    assert_eq!(record(&pallet, 4, USER), Some((5, 1_000, true)));
    assert_eq!(
        pallet.events.last(),
        Some(&Event::UserRefunded(3, USER, 5, IDENTIFIER, 1_000)),
    );
}

#[test]
fn submission_leaves_the_refunds_of_other_users() {
    let mut pallet: Pallet<Runtime> = Pallet::new();
    submit(&mut pallet, 3);
    let result = pallet.submit_doubly_encrypted_transaction(
        &environment(3),
        Origin::Signed(STRANGER),
        vec![4],
        9,
        100,
        BUILDER,
        EXECUTOR,
        Ok(()),
    );
    assert_eq!(result, Ok(()));
    let other = identifier::<Substrate>(&vec![4], &STRANGER, &9);
    assert_eq!(pallet.doubly_encrypted_queue(&BUILDER), vec![IDENTIFIER, other]);
    assert_eq!(pallet.txn_registry(&IDENTIFIER).unwrap().user, USER);
    assert_eq!(
        pallet.refund_user(4, Origin::Signed(USER), other),
        Err(CallError::Module(Error::NoMarkedRefund)),
    );
    assert_eq!(pallet.refund_user(4, Origin::Signed(STRANGER), other), Ok(()));
    assert_eq!(pallet.refund_user(4, Origin::Signed(USER), IDENTIFIER), Ok(()));
}

#[test]
fn refund_counts_from_the_next_session_on() {
    let mut pallet: Pallet<Runtime> = Pallet::new();
    submit(&mut pallet, 3);
    assert_eq!(pallet.refund_user(4, Origin::Signed(USER), IDENTIFIER), Ok(()));
    assert_eq!(pallet.refund_user(4, Origin::Signed(USER), IDENTIFIER), Ok(()));
    assert_eq!(
        pallet.refund_user(5, Origin::Signed(USER), IDENTIFIER),
        Err(CallError::Module(Error::NoMarkedRefund)),
    );
}

#[test]
fn refunded_transaction_is_not_refunded_in_any_later_session() {
    let mut pallet: Pallet<Runtime> = Pallet::new();
    let nothing = Err(CallError::Module(Error::NoMarkedRefund));
    submit(&mut pallet, 3);
    pallet.on_before_session_ending(3);
    assert_eq!(pallet.refund_user(4, Origin::Signed(USER), IDENTIFIER), Ok(()));
    for session in 4..9 {
        pallet.on_before_session_ending(session);
        assert_eq!(pallet.refund_user(session + 1, Origin::Signed(USER), IDENTIFIER), nothing);
    }
    submit(&mut pallet, 9);
    pallet.on_before_session_ending(9);
    assert_eq!(pallet.refund_user(10, Origin::Signed(USER), IDENTIFIER), Ok(()));
}

#[test]
fn decrypted_transaction_is_not_refunded() {
    let mut pallet: Pallet<Runtime> = Pallet::new();
    submit(&mut pallet, 3);
    refused(pallet.submit_decrypted_transaction(3, Origin::Unsigned, IDENTIFIER, vec![4], 0));
    assert_eq!(
        pallet.refund_user(4, Origin::Signed(USER), IDENTIFIER),
        Err(CallError::Module(Error::NoMarkedRefund)),
    );
}

#[test]
fn decrypted_transaction_is_not_refunded_later_whatever_happens() {
    let mut pallet: Pallet<Runtime> = Pallet::new();
    let nothing = Err(CallError::Module(Error::NoMarkedRefund));
    submit(&mut pallet, 3);
    refused(pallet.submit_decrypted_transaction(3, Origin::Unsigned, IDENTIFIER, vec![4], 0));
    submit(&mut pallet, 3);
    for session in 3..6 {
        pallet.on_before_session_ending(session);
        assert_eq!(pallet.refund_user(session + 1, Origin::Signed(USER), IDENTIFIER), nothing);
    }
}

#[test]
fn refund_stays_open_through_the_next_session() {
    let mut pallet: Pallet<Runtime> = Pallet::new();
    submit(&mut pallet, 3);
    let result = pallet.submit_singly_encrypted_transaction(Origin::Unsigned, IDENTIFIER, vec![8]);
    assert_eq!(result, Ok(()));
    assert_eq!(
        pallet.refund_user(3, Origin::Signed(STRANGER), IDENTIFIER),
        Err(CallError::Module(Error::NoMarkedRefund)),
    );
    pallet.on_before_session_ending(3);
    submit(&mut pallet, 4);
    refused(pallet.submit_decrypted_transaction(4, Origin::Unsigned, IDENTIFIER, vec![4], 0));
    assert_eq!(pallet.refund_user(4, Origin::Signed(USER), IDENTIFIER), Ok(()));
    assert_eq!(
        pallet.events.last(),
        Some(&Event::UserRefunded(3, USER, 5, IDENTIFIER, 1_000)),
    );
}

#[test]
fn nothing_is_refunded_in_the_first_session_or_without_a_signature() {
    let mut pallet: Pallet<Runtime> = Pallet::new();
    submit(&mut pallet, 0);
    assert_eq!(
        pallet.refund_user(0, Origin::Signed(USER), IDENTIFIER),
        Err(CallError::Module(Error::NoMarkedRefund)),
    );
    for origin in vec![Origin::Root, Origin::Unsigned, Origin::Other] {
        assert_eq!(pallet.refund_user(1, origin, IDENTIFIER), Err(CallError::BadOrigin));
    }
}

#[test]
fn session_end_drops_keys_and_the_records_before_it() {
    let mut pallet: Pallet<Runtime> = Pallet::new();
    submit(&mut pallet, 2);
    submit(&mut pallet, 3);
    started(pallet.submit_decrypted_transaction(2, Origin::Unsigned, IDENTIFIER, vec![0], 0));
    started(pallet.submit_decrypted_transaction(3, Origin::Unsigned, IDENTIFIER, vec![0], 0));
    pallet.on_new_session(true, vec![(BUILDER, 11), (EXECUTOR, 12)], vec![]);
    let dropped = pallet.on_before_session_ending(3);
    assert_eq!(
        dropped,
        vec![
            StorageItem::TxnRegistry,
            StorageItem::DoublyEncryptedQueue,
            StorageItem::SinglyEncryptedQueue,
        ],
    );
    assert!(pallet.keys().get(&BUILDER).is_none());
    assert_eq!(record(&pallet, 2, USER), None);
    assert_eq!(record(&pallet, 3, USER), Some((5, 1_000, false)));
    assert_eq!(pallet.execd_txn_record(2, &USER), Vec::<Hash>::new());
    assert_eq!(pallet.execd_txn_record(3, &USER), vec![IDENTIFIER]);
    assert!(pallet.txn_registry(&IDENTIFIER).is_some());
    assert_eq!(pallet.doubly_encrypted_queue(&BUILDER), vec![IDENTIFIER, IDENTIFIER]);
}

#[test]
fn end_of_the_first_session_drops_keys_only() {
    let mut pallet: Pallet<Runtime> = Pallet::new();
    pallet.on_genesis_session(vec![(BUILDER, 11)]);
    submit(&mut pallet, 0);
    pallet.on_before_session_ending(0);
    assert!(pallet.keys().get(&BUILDER).is_none());
    assert_eq!(record(&pallet, 0, USER), Some((5, 1_000, false)));
}

#[test]
fn refunds_close_with_the_session() {
    let mut pallet: Pallet<Runtime> = Pallet::new();
    submit(&mut pallet, 3);
    pallet.on_before_session_ending(3);
    pallet.on_before_session_ending(4);
    assert_eq!(
        pallet.refund_user(4, Origin::Signed(USER), IDENTIFIER),
        Err(CallError::Module(Error::NoMarkedRefund)),
    );
}

#[test]
fn session_keys_are_replaced_and_the_last_key_counts() {
    let mut pallet: Pallet<Runtime> = Pallet::new();
    pallet.on_genesis_session(vec![(BUILDER, 11), (EXECUTOR, 12), (BUILDER, 13)]);
    assert_eq!(pallet.keys().get(&BUILDER), Some(&13));
    assert_eq!(pallet.keys().get(&EXECUTOR), Some(&12));
    pallet.on_disabled(0);
    assert_eq!(pallet.keys().get(&EXECUTOR), Some(&12));
    pallet.on_new_session(false, vec![(STRANGER, 14)], vec![(BUILDER, 15)]);
    assert_eq!(pallet.keys().get(&STRANGER), Some(&14));
    assert_eq!(pallet.keys().get(&BUILDER), None);
}

#[test]
fn storage_map_stores_takes_and_drops() {
    let mut map: StorageMap<(u32, u32), u8> = StorageMap::new();
    map.insert((1, 1), 10);
    map.insert((1, 2), 20);
    map.insert((2, 1), 30);
    map.insert((1, 1), 40);
    assert_eq!(map.get(&(1, 1)), Some(&40));
    assert_eq!(map.get(&(2, 2)), None);
    assert_eq!(map.take(&(1, 1)), Some(40));
    assert_eq!(map.take(&(1, 1)), None);
    assert_eq!(map.get(&(1, 2)), Some(&20));
    map.insert((2, 3), 50);
    map.remove_prefix(&2);
    assert_eq!(map.into_pairs(), vec![((1, 2), 20)]);
}
