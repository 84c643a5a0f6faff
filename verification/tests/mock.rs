use authority_claimer::claim::RollupsClaim;
use authority_claimer::listener::BrokerListenerError;
use authority_claimer::mock::{
    assert_broker_listener_ended, assert_broker_listener_failed, produce_last_claim,
    produce_rollups_claims, Claimer, ClaimerError,
};

fn accepted_before_error(mut claimer: Claimer) -> (usize, ClaimerError) {
    let mut accepted = 0;
    loop {
        match claimer.send_rollups_claim(RollupsClaim::default()) {
            Ok(rest) => {
                claimer = rest;
                accepted += 1;
            }
            Err(error) => return (accepted, error),
        }
    }
}

#[test]
fn scripted_claimer_accepts_n_claims_then_ends() {
    assert_eq!(accepted_before_error(Claimer::new(5)), (5, ClaimerError::EndError));
    assert_eq!(accepted_before_error(Claimer::new(0)), (0, ClaimerError::EndError));
}

#[test]
fn scripted_claimer_accepts_n_claims_then_fails() {
    assert_eq!(accepted_before_error(Claimer::new_with_error(3)), (3, ClaimerError::MockError));
    assert_eq!(accepted_before_error(Claimer::new_with_error(0)), (0, ClaimerError::MockError));
}

#[test]
fn scripted_claimer_ignores_the_claim() {
    let claimer = Claimer::new(2);
    let claimer = claimer.send_rollups_claim(RollupsClaim { epoch_index: 77, epoch_hash: [9; 32] }).unwrap();
    let claimer = claimer.send_rollups_claim(RollupsClaim { epoch_index: 3, epoch_hash: [0; 32] }).unwrap();
    assert_eq!(claimer.send_rollups_claim(RollupsClaim::default()).unwrap_err(), ClaimerError::EndError);
}

#[test]
fn mock_errors_are_named_after_their_variants() {
    assert_eq!(ClaimerError::EndError.to_string(), "EndError");
    assert_eq!(ClaimerError::InternalError.to_string(), "InternalError");
    assert_eq!(ClaimerError::MockError.to_string(), "MockError");
}

#[test]
fn ended_and_failed_listeners_pass_their_checks() {
    assert_broker_listener_ended(Err(BrokerListenerError::ClaimerError { source: ClaimerError::EndError }));
    assert_broker_listener_failed(Err(BrokerListenerError::ClaimerError { source: ClaimerError::MockError }));
}

#[test]
fn produced_claims_count_up_from_the_start() {
    let rollups_claims = produce_rollups_claims(5, 0);
    let epochs: Vec<u64> = rollups_claims.iter().map(|c| c.epoch_index).collect();
    assert_eq!(epochs, vec![0, 1, 2, 3, 4]);
    for rollups_claim in rollups_claims.iter() {
        assert_eq!(rollups_claim.epoch_hash, [0u8; 32]);
    }
    let later = produce_rollups_claims(3, 40);
    assert_eq!(later[0].epoch_index, 40);
    assert_eq!(later[2].epoch_index, 42);
    assert_eq!(produce_rollups_claims(0, 7), vec![]);
}

#[test]
fn last_claim_is_one_claim_of_the_given_epoch() {
    assert_eq!(produce_last_claim(5), vec![RollupsClaim { epoch_index: 5, epoch_hash: [0; 32] }]);
}

#[test]
fn default_claim_is_epoch_zero_with_zero_hash() {
    assert_eq!(RollupsClaim::default(), RollupsClaim { epoch_index: 0, epoch_hash: [0; 32] });
}
