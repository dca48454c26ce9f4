use auxano_token::AllowanceValue;
use auxano_token::AuxanoToken;
use auxano_token::MuxedAddress;
use auxano_token::TokenError;
use auxano_token::TransferEvent;

const SUPPLY: i128 = 770_000_000_000_000_000;

fn initialized(recipient: u64) -> AuxanoToken {
    let mut t = AuxanoToken::new();
    assert_eq!(t.initialize(recipient), Ok(()));
    t
}

fn plain(address: u64) -> MuxedAddress {
    MuxedAddress {
        address,
        muxed_id: None,
    }
}

#[test]
fn scenario_initialize_mints_whole_supply_to_recipient() {
    let t = initialized(1);
    assert_eq!(t.total_supply(), Ok(SUPPLY));
    assert_eq!(t.total_supply(), Ok(77_000_000_000 * 10_000_000));
    assert_eq!(t.balance(1), Ok(SUPPLY));
    assert_eq!(t.balance(2), Ok(0));
}

#[test]
fn scenario_transfer_moves_amount_and_reports_event() {
    let mut t = initialized(1);
    let ev = t.transfer(1, plain(2), 500).unwrap();
    assert_eq!(
        ev,
        TransferEvent {
            from: 1,
            to: 2,
            to_muxed_id: None,
            amount: 500,
        }
    );
    assert_eq!(t.balance(1), Ok(SUPPLY - 500));
    assert_eq!(t.balance(2), Ok(500));
}

#[test]
fn scenario_delegated_spend_decrements_allowance() {
    let mut t = initialized(1);
    let current = 20;
    assert_eq!(t.approve(1, 3, 100, current + 10, current), Ok(()));
    assert_eq!(t.transfer_from(3, 1, 2, 40, current), Ok(()));
    assert_eq!(t.allowance(1, 3, current), Ok(60));
    assert_eq!(
        t.transfer_from(3, 1, 2, 61, current),
        Err(TokenError::InsufficientAllowance)
    );
    assert_eq!(t.allowance(1, 3, current), Ok(60));
    assert_eq!(t.balance(2), Ok(40));
}

#[test]
fn scenario_approve_rejects_expired_nonzero_approval() {
    let mut t = initialized(1);
    assert_eq!(
        t.approve(1, 3, 50, 4, 5),
        Err(TokenError::AmountMustBePositive)
    );
    assert_eq!(t.allowance(1, 3, 5), Ok(0));
    assert_eq!(t.approve(1, 3, 0, 4, 5), Ok(()));
    assert_eq!(t.allowance(1, 3, 5), Ok(0));
}

#[test]
fn scenario_transfer_rejects_non_positive_amounts() {
    let mut t = initialized(1);
    assert_eq!(
        t.transfer(1, plain(2), 0),
        Err(TokenError::AmountMustBePositive)
    );
    assert_eq!(
        t.transfer(1, plain(2), -5),
        Err(TokenError::AmountMustBePositive)
    );
    assert_eq!(t.balance(1), Ok(SUPPLY));
    assert_eq!(t.balance(2), Ok(0));
}

#[test]
fn second_initialization_fails_and_changes_nothing() {
    let mut t = initialized(1);
    assert_eq!(t.transfer(1, plain(2), 7).map(|_| ()), Ok(()));
    assert_eq!(t.initialize(2), Err(TokenError::AlreadyInitialized));
    assert_eq!(t.balance(1), Ok(SUPPLY - 7));
    assert_eq!(t.balance(2), Ok(7));
    assert_eq!(t.total_supply(), Ok(SUPPLY));
}

#[test]
fn operations_before_initialization_fail() {
    let mut t = AuxanoToken::new();
    assert_eq!(t.total_supply(), Err(TokenError::NotInitialized));
    assert_eq!(t.balance(1), Err(TokenError::NotInitialized));
    assert_eq!(t.allowance(1, 2, 0), Err(TokenError::NotInitialized));
    assert_eq!(t.approve(1, 2, 5, 10, 0), Err(TokenError::NotInitialized));
    assert_eq!(
        t.transfer(1, plain(2), 5),
        Err(TokenError::NotInitialized)
    );
    assert_eq!(
        t.transfer_from(3, 1, 2, 5, 0),
        Err(TokenError::NotInitialized)
    );
    assert_eq!(t.burn(1, 5), Err(TokenError::NotInitialized));
    assert_eq!(t.burn_from(3, 1, 5), Err(TokenError::NotInitialized));
}

#[test]
fn burn_paths_always_fail_and_move_nothing() {
    let mut t = initialized(1);
    assert_eq!(t.burn(1, 5), Err(TokenError::BurnDisabled));
    assert_eq!(t.burn(2, 0), Err(TokenError::BurnDisabled));
    assert_eq!(t.burn(1, -3), Err(TokenError::BurnDisabled));
    assert_eq!(t.burn_from(3, 1, 5), Err(TokenError::BurnDisabled));
    assert_eq!(t.burn_from(1, 1, SUPPLY), Err(TokenError::BurnDisabled));
    assert_eq!(t.balance(1), Ok(SUPPLY));
    assert_eq!(t.total_supply(), Ok(SUPPLY));
}

#[test]
fn transfer_rejects_overdraft() {
    let mut t = initialized(1);
    assert_eq!(t.transfer(1, plain(2), 300).map(|_| ()), Ok(()));
    assert_eq!(
        t.transfer(2, plain(1), 301),
        Err(TokenError::InsufficientBalance)
    );
    assert_eq!(t.balance(1), Ok(SUPPLY - 300));
    assert_eq!(t.balance(2), Ok(300));
    assert_eq!(t.transfer(2, plain(1), 300).map(|_| ()), Ok(()));
    assert_eq!(t.balance(2), Ok(0));
}

#[test]
fn transfer_to_self_changes_nothing() {
    let mut t = initialized(1);
    let ev = t.transfer(1, plain(1), 10).unwrap();
    assert_eq!(ev.from, 1);
    assert_eq!(ev.to, 1);
    assert_eq!(t.balance(1), Ok(SUPPLY));
}

#[test]
fn transfer_records_sub_identity_in_event_only() {
    let mut t = initialized(1);
    let to = MuxedAddress {
        address: 2,
        muxed_id: Some(9001),
    };
    let ev = t.transfer(1, to, 25).unwrap();
    assert_eq!(ev.to, 2);
    assert_eq!(ev.to_muxed_id, Some(9001));
    assert_eq!(t.balance(2), Ok(25));
}

#[test]
fn expired_allowance_reads_zero_and_rejects_spends() {
    let mut t = initialized(1);
    assert_eq!(t.approve(1, 3, 100, 50, 40), Ok(()));
    assert_eq!(t.allowance(1, 3, 50), Ok(100));
    assert_eq!(t.allowance(1, 3, 51), Ok(0));
    assert_eq!(
        t.transfer_from(3, 1, 2, 10, 51),
        Err(TokenError::InsufficientAllowance)
    );
    assert_eq!(t.balance(2), Ok(0));
}

#[test]
fn zero_expiration_allowance_never_expires() {
    let mut t = initialized(1);
    assert_eq!(t.approve(1, 3, 50, 0, 0), Ok(()));
    assert_eq!(t.allowance(1, 3, 1_000_000), Ok(50));
    assert_eq!(t.transfer_from(3, 1, 2, 50, 1_000_000), Ok(()));
    assert_eq!(t.balance(2), Ok(50));
}

#[test]
fn allowance_spends_down_to_exactly_zero() {
    let mut t = initialized(1);
    assert_eq!(t.approve(1, 3, 100, 90, 40), Ok(()));
    assert_eq!(t.transfer_from(3, 1, 2, 40, 41), Ok(()));
    assert_eq!(t.transfer_from(3, 1, 2, 60, 42), Ok(()));
    assert_eq!(t.allowance(1, 3, 43), Ok(0));
    assert_eq!(
        t.transfer_from(3, 1, 2, 1, 43),
        Err(TokenError::InsufficientAllowance)
    );
}

#[test]
fn approve_overwrites_instead_of_adding() {
    let mut t = initialized(1);
    assert_eq!(t.approve(1, 3, 100, 90, 40), Ok(()));
    assert_eq!(t.approve(1, 3, 40, 90, 40), Ok(()));
    assert_eq!(t.allowance(1, 3, 40), Ok(40));
}

#[test]
fn approve_rejects_negative_amounts() {
    let mut t = initialized(1);
    assert_eq!(
        t.approve(1, 3, -1, 90, 40),
        Err(TokenError::AmountMustBePositive)
    );
    assert_eq!(t.allowance(1, 3, 40), Ok(0));
}

#[test]
fn transfer_from_rejects_non_positive_amounts() {
    let mut t = initialized(1);
    assert_eq!(t.approve(1, 3, 100, 90, 40), Ok(()));
    assert_eq!(
        t.transfer_from(3, 1, 2, 0, 40),
        Err(TokenError::AmountMustBePositive)
    );
    assert_eq!(
        t.transfer_from(3, 1, 2, -4, 40),
        Err(TokenError::AmountMustBePositive)
    );
    assert_eq!(t.allowance(1, 3, 40), Ok(100));
}

#[test]
fn transfer_from_checks_allowance_before_balance() {
    let mut t = initialized(1);
    assert_eq!(t.transfer(1, plain(2), 100).map(|_| ()), Ok(()));
    assert_eq!(t.approve(2, 3, 1_000, 90, 40), Ok(()));
    assert_eq!(
        t.transfer_from(3, 2, 4, 2_000, 40),
        Err(TokenError::InsufficientAllowance)
    );
    assert_eq!(
        t.transfer_from(3, 2, 4, 200, 40),
        Err(TokenError::InsufficientBalance)
    );
    assert_eq!(t.allowance(2, 3, 40), Ok(1_000));
    assert_eq!(t.balance(2), Ok(100));
    assert_eq!(t.balance(4), Ok(0));
}

#[test]
fn delegated_transfer_to_owner_keeps_owner_balance() {
    let mut t = initialized(1);
    assert_eq!(t.approve(1, 3, 100, 90, 40), Ok(()));
    assert_eq!(t.transfer_from(3, 1, 1, 30, 40), Ok(()));
    assert_eq!(t.balance(1), Ok(SUPPLY));
    assert_eq!(t.allowance(1, 3, 40), Ok(70));
}

#[test]
fn balances_always_sum_to_the_supply() {
    let mut t = initialized(1);
    assert_eq!(t.transfer(1, plain(2), 500).map(|_| ()), Ok(()));
    assert_eq!(t.transfer(2, plain(3), 123).map(|_| ()), Ok(()));
    assert_eq!(t.approve(1, 4, 10_000, 90, 40), Ok(()));
    assert_eq!(t.transfer_from(4, 1, 5, 9_999, 40), Ok(()));
    let sum = t.balance(1).unwrap()
        + t.balance(2).unwrap()
        + t.balance(3).unwrap()
        + t.balance(5).unwrap();
    assert_eq!(sum, SUPPLY);
    assert_eq!(t.total_supply(), Ok(SUPPLY));
}

#[test]
fn metadata_is_fixed_and_ungated() {
    let t = AuxanoToken::new();
    assert_eq!(t.decimals(), 7);
    assert_eq!(t.name(), "Auxano");
    assert_eq!(t.symbol(), "AVXO");
    let initialized_token = initialized(1);
    assert_eq!(initialized_token.decimals(), 7);
    assert_eq!(initialized_token.name(), "Auxano");
    assert_eq!(initialized_token.symbol(), "AVXO");
}

#[test]
fn allowance_records_keep_their_expiration_when_spent() {
    let mut t = initialized(1);
    assert_eq!(t.approve(1, 3, 100, 60, 40), Ok(()));
    assert_eq!(t.transfer_from(3, 1, 2, 10, 40), Ok(()));
    assert_eq!(t.allowance(1, 3, 60), Ok(90));
    assert_eq!(t.allowance(1, 3, 61), Ok(0));
}

#[test]
fn allowance_value_defaults_to_absent_record() {
    let v = AllowanceValue {
        amount: 0,
        expiration_ledger: 0,
    };
    let t = initialized(1);
    assert_eq!(t.allowance(9, 9, 0), Ok(v.amount));
}
