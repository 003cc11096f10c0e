use multisig_wallet::errors::Error;
use multisig_wallet::wallet::MultisigWalletContract;

const S1: u64 = 1;
const S2: u64 = 2;
const S3: u64 = 3;
const RECIPIENT: u64 = 40;
const TOKEN: u64 = 50;

fn three_signer_wallet() -> MultisigWalletContract {
    let mut wallet = MultisigWalletContract::new();
    wallet.initialize(vec![S1, S2, S3], 2).unwrap();
    wallet
}

#[test]
fn scenario_threshold_met_transfer_fires() {
    let mut wallet = three_signer_wallet();

    let id = wallet.propose(S1, RECIPIENT, TOKEN, 100).unwrap();
    assert_eq!(id, 1);
    assert_eq!(wallet.get_proposal(1).unwrap().approvers, vec![S1]);

    wallet.approve(S2, 1).unwrap();
    assert_eq!(wallet.get_proposal(1).unwrap().approvers, vec![S1, S2]);

    let mut transfers: Vec<(u64, u64, i128)> = Vec::new();
    wallet
        .execute(S3, 1, |token, to, amount| {
            transfers.push((token, to, amount));
            Ok(())
        })
        .unwrap();

    assert_eq!(transfers, vec![(TOKEN, RECIPIENT, 100)]);
    assert!(wallet.get_proposal(1).unwrap().executed);
}

#[test]
fn scenario_execute_below_threshold_fails() {
    let mut wallet = three_signer_wallet();
    wallet.propose(S1, RECIPIENT, TOKEN, 100).unwrap();

    let mut transfers: Vec<(u64, u64, i128)> = Vec::new();
    let result = wallet.execute(S1, 1, |token, to, amount| {
        transfers.push((token, to, amount));
        Ok(())
    });

    assert!(matches!(result, Err(Error::ThresholdNotMet)));
    // No transfer was attempted and the proposal stays unexecuted.
    assert!(transfers.is_empty());
    assert!(!wallet.get_proposal(1).unwrap().executed);
}

#[test]
fn scenario_double_approval_fails() {
    let mut wallet = three_signer_wallet();
    wallet.propose(S2, RECIPIENT, TOKEN, 100).unwrap();

    wallet.approve(S1, 1).unwrap();
    let second = wallet.approve(S1, 1);

    assert!(matches!(second, Err(Error::AlreadyApproved)));
    assert_eq!(wallet.get_proposal(1).unwrap().approvers, vec![S2, S1]);
}

#[test]
fn scenario_execute_twice_fails_without_second_transfer() {
    let mut wallet = three_signer_wallet();
    wallet.propose(S1, RECIPIENT, TOKEN, 100).unwrap();
    wallet.approve(S2, 1).unwrap();

    let mut transfers: Vec<(u64, u64, i128)> = Vec::new();
    wallet
        .execute(S3, 1, |token, to, amount| {
            transfers.push((token, to, amount));
            Ok(())
        })
        .unwrap();

    let again = wallet.execute(S2, 1, |token, to, amount| {
        transfers.push((token, to, amount));
        Ok(())
    });

    assert!(matches!(again, Err(Error::ProposalExecuted)));
    assert_eq!(transfers.len(), 1);
    assert!(wallet.get_proposal(1).unwrap().executed);
}

#[test]
fn scenario_unknown_proposal_id_fails() {
    let mut wallet = three_signer_wallet();
    wallet.propose(S1, RECIPIENT, TOKEN, 100).unwrap();

    let result = wallet.get_proposal(99);
    assert!(matches!(result, Err(Error::ProposalNotFound)));
}
