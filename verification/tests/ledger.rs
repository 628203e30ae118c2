use ws_vesting::address::Address;
use ws_vesting::errors::ErrorCode;
use ws_vesting::ledger::{
    ClaimTokens, CreateEmployeeAccount, CreateVestingAccount, Ledger,
};

const OWNER: u64 = 1;
const ALICE: u64 = 2;
const MALLORY: u64 = 3;
const MINT: u64 = 77;

fn name() -> Vec<u8> {
    b"acme".to_vec()
}

fn token_amount(l: &Ledger, addr: &Address) -> Option<u64> {
    for (a, t) in l.token_accounts.iter() {
        if a == addr {
            return Some(t.amount);
        }
    }
    None
}

fn withdrawn(l: &Ledger, beneficiary: u64, company: &[u8]) -> u64 {
    let key = Address::Employee(beneficiary, company.to_vec());
    for (a, e) in l.employee_accounts.iter() {
        if a == &key {
            return e.total_withdrawn;
        }
    }
    panic!("no employee account for this beneficiary");
}

/// A grant of 1000 tokens to ALICE over [0, 1000] with a cliff at 100, the
/// treasury funded to cover it.
fn setup() -> Ledger {
    let mut l = Ledger::new();
    l.create_vesting_account(&CreateVestingAccount {
        signer: OWNER,
        mint: MINT,
        company_name: name(),
    })
    .unwrap();
    let vesting = Address::Vesting(name());
    l.create_employee_account(&CreateEmployeeAccount {
        signer: OWNER,
        beneficiary: ALICE,
        vesting_account: vesting,
        start_time: 0,
        end_time: 1000,
        cliff_time: 100,
        total_amount: 1000,
    })
    .unwrap();
    l.deposit(&Address::Treasury(name()), 1000).unwrap();
    l
}

fn claim(l: &mut Ledger, signer: u64, now: i64) -> Result<u64, ErrorCode> {
    l.claim_tokens(&ClaimTokens { signer, company_name: name(), now })
}

#[test]
fn grant_lifecycle_pays_out_linearly() {
    let mut l = setup();
    // Before the cliff nothing is claimable and nothing is recorded.
    assert_eq!(claim(&mut l, ALICE, 50), Err(ErrorCode::ClaimNotAvailable));
    assert_eq!(withdrawn(&l, ALICE, b"acme"), 0);
    // Halfway through, half the allocation is paid out.
    assert_eq!(claim(&mut l, ALICE, 500), Ok(500));
    assert_eq!(withdrawn(&l, ALICE, b"acme"), 500);
    // After the end, the remainder is paid out.
    assert_eq!(claim(&mut l, ALICE, 1500), Ok(500));
    assert_eq!(withdrawn(&l, ALICE, b"acme"), 1000);
    // Nothing is left to claim.
    assert_eq!(claim(&mut l, ALICE, 2000), Err(ErrorCode::NoAmountToClaim));
    assert_eq!(withdrawn(&l, ALICE, b"acme"), 1000);
}

#[test]
fn claim_moves_the_balance_from_treasury_to_beneficiary() {
    let mut l = setup();
    assert_eq!(claim(&mut l, ALICE, 250), Ok(250));
    assert_eq!(token_amount(&l, &Address::Treasury(name())), Some(750));
    assert_eq!(token_amount(&l, &Address::AssociatedToken(ALICE, MINT)), Some(250));
    assert_eq!(claim(&mut l, ALICE, 500), Ok(250));
    assert_eq!(token_amount(&l, &Address::Treasury(name())), Some(500));
    assert_eq!(token_amount(&l, &Address::AssociatedToken(ALICE, MINT)), Some(500));
}

#[test]
fn repeated_claim_with_no_elapsed_time_yields_nothing() {
    let mut l = setup();
    let first = claim(&mut l, ALICE, 600).unwrap();
    assert_eq!(first, 600);
    // No time has passed: the second claim finds nothing, and everything
    // transferred across both calls is what was vested at the first.
    assert_eq!(claim(&mut l, ALICE, 600), Err(ErrorCode::NoAmountToClaim));
    assert_eq!(withdrawn(&l, ALICE, b"acme"), first);
}

#[test]
fn claim_before_cliff_leaves_the_store_unchanged() {
    let mut l = setup();
    assert_eq!(claim(&mut l, ALICE, 99), Err(ErrorCode::ClaimNotAvailable));
    assert_eq!(withdrawn(&l, ALICE, b"acme"), 0);
    assert_eq!(token_amount(&l, &Address::Treasury(name())), Some(1000));
    assert_eq!(token_amount(&l, &Address::AssociatedToken(ALICE, MINT)), None);
}

#[test]
fn non_beneficiary_claim_is_unauthorized() {
    let mut l = setup();
    assert_eq!(claim(&mut l, MALLORY, 500), Err(ErrorCode::Unauthorized));
    // The vesting state does not matter: still unauthorized after the end.
    assert_eq!(claim(&mut l, MALLORY, 5000), Err(ErrorCode::Unauthorized));
    assert_eq!(withdrawn(&l, ALICE, b"acme"), 0);
}

#[test]
fn claim_against_unknown_company_is_unauthorized() {
    let mut l = setup();
    let r = l.claim_tokens(&ClaimTokens {
        signer: ALICE,
        company_name: b"ghost".to_vec(),
        now: 500,
    });
    assert_eq!(r, Err(ErrorCode::Unauthorized));
}

#[test]
fn zero_duration_schedule_fails_after_cliff() {
    let mut l = Ledger::new();
    l.create_vesting_account(&CreateVestingAccount {
        signer: OWNER,
        mint: MINT,
        company_name: name(),
    })
    .unwrap();
    l.create_employee_account(&CreateEmployeeAccount {
        signer: OWNER,
        beneficiary: ALICE,
        vesting_account: Address::Vesting(name()),
        start_time: 700,
        end_time: 700,
        cliff_time: 100,
        total_amount: 1000,
    })
    .unwrap();
    l.deposit(&Address::Treasury(name()), 1000).unwrap();
    assert_eq!(claim(&mut l, ALICE, 800), Err(ErrorCode::InvalidVestingTime));
    assert_eq!(claim(&mut l, ALICE, 650), Err(ErrorCode::InvalidVestingTime));
}

#[test]
fn unfunded_treasury_fails_the_transfer_and_records_nothing() {
    let mut l = Ledger::new();
    l.create_vesting_account(&CreateVestingAccount {
        signer: OWNER,
        mint: MINT,
        company_name: name(),
    })
    .unwrap();
    l.create_employee_account(&CreateEmployeeAccount {
        signer: OWNER,
        beneficiary: ALICE,
        vesting_account: Address::Vesting(name()),
        start_time: 0,
        end_time: 1000,
        cliff_time: 100,
        total_amount: 1000,
    })
    .unwrap();
    l.deposit(&Address::Treasury(name()), 100).unwrap();
    assert_eq!(claim(&mut l, ALICE, 500), Err(ErrorCode::TransferError));
    assert_eq!(withdrawn(&l, ALICE, b"acme"), 0);
    assert_eq!(token_amount(&l, &Address::Treasury(name())), Some(100));
}

#[test]
fn duplicate_company_creation_fails() {
    let mut l = Ledger::new();
    let req = CreateVestingAccount { signer: OWNER, mint: MINT, company_name: name() };
    assert_eq!(l.create_vesting_account(&req), Ok(Address::Vesting(name())));
    assert_eq!(l.create_vesting_account(&req), Err(ErrorCode::AlreadyExists));
    // Another signer cannot take the name over either.
    let other = CreateVestingAccount { signer: MALLORY, mint: MINT, company_name: name() };
    assert_eq!(l.create_vesting_account(&other), Err(ErrorCode::AlreadyExists));
}

#[test]
fn duplicate_enrollment_fails() {
    let mut l = setup();
    let r = l.create_employee_account(&CreateEmployeeAccount {
        signer: OWNER,
        beneficiary: ALICE,
        vesting_account: Address::Vesting(name()),
        start_time: 5,
        end_time: 6,
        cliff_time: 5,
        total_amount: 9,
    });
    assert_eq!(r, Err(ErrorCode::AlreadyExists));
}

#[test]
fn company_name_is_capped_at_fifty_bytes() {
    let mut l = Ledger::new();
    let r = l.create_vesting_account(&CreateVestingAccount {
        signer: OWNER,
        mint: MINT,
        company_name: vec![b'x'; 51],
    });
    assert_eq!(r, Err(ErrorCode::InvalidCompanyName));
    let r = l.create_vesting_account(&CreateVestingAccount {
        signer: OWNER,
        mint: MINT,
        company_name: vec![b'x'; 50],
    });
    assert_eq!(r, Ok(Address::Vesting(vec![b'x'; 50])));
}

#[test]
fn only_the_owner_can_enroll() {
    let mut l = Ledger::new();
    l.create_vesting_account(&CreateVestingAccount {
        signer: OWNER,
        mint: MINT,
        company_name: name(),
    })
    .unwrap();
    let r = l.create_employee_account(&CreateEmployeeAccount {
        signer: MALLORY,
        beneficiary: MALLORY,
        vesting_account: Address::Vesting(name()),
        start_time: 0,
        end_time: 1000,
        cliff_time: 0,
        total_amount: 1000,
    });
    assert_eq!(r, Err(ErrorCode::Unauthorized));
}

#[test]
fn enrollment_under_a_missing_vesting_account_is_unauthorized() {
    let mut l = Ledger::new();
    let r = l.create_employee_account(&CreateEmployeeAccount {
        signer: OWNER,
        beneficiary: ALICE,
        vesting_account: Address::Vesting(name()),
        start_time: 0,
        end_time: 1000,
        cliff_time: 0,
        total_amount: 1000,
    });
    assert_eq!(r, Err(ErrorCode::Unauthorized));
}

#[test]
fn deposit_requires_an_existing_account_and_room() {
    let mut l = Ledger::new();
    assert_eq!(
        l.deposit(&Address::Treasury(name()), 5),
        Err(ErrorCode::Unauthorized)
    );
    l.create_vesting_account(&CreateVestingAccount {
        signer: OWNER,
        mint: MINT,
        company_name: name(),
    })
    .unwrap();
    assert_eq!(l.deposit(&Address::Treasury(name()), u64::MAX), Ok(()));
    assert_eq!(
        l.deposit(&Address::Treasury(name()), 1),
        Err(ErrorCode::TransferError)
    );
    assert_eq!(token_amount(&l, &Address::Treasury(name())), Some(u64::MAX));
}

#[test]
fn two_grants_under_different_names_are_independent() {
    let mut l = setup();
    l.create_vesting_account(&CreateVestingAccount {
        signer: MALLORY,
        mint: MINT,
        company_name: b"globex".to_vec(),
    })
    .unwrap();
    l.create_employee_account(&CreateEmployeeAccount {
        signer: MALLORY,
        beneficiary: ALICE,
        vesting_account: Address::Vesting(b"globex".to_vec()),
        start_time: 0,
        end_time: 10,
        cliff_time: 0,
        total_amount: 40,
    })
    .unwrap();
    l.deposit(&Address::Treasury(b"globex".to_vec()), 40).unwrap();
    let r = l.claim_tokens(&ClaimTokens {
        signer: ALICE,
        company_name: b"globex".to_vec(),
        now: 20,
    });
    assert_eq!(r, Ok(40));
    // The first grant is untouched.
    assert_eq!(withdrawn(&l, ALICE, b"acme"), 0);
    assert_eq!(token_amount(&l, &Address::Treasury(name())), Some(1000));
    // Both payouts land on the same receiving account: same wallet, same mint.
    assert_eq!(claim(&mut l, ALICE, 500), Ok(500));
    assert_eq!(token_amount(&l, &Address::AssociatedToken(ALICE, MINT)), Some(540));
}

#[test]
fn empty_company_name_is_a_valid_seed() {
    let mut l = Ledger::new();
    let r = l.create_vesting_account(&CreateVestingAccount {
        signer: OWNER,
        mint: MINT,
        company_name: Vec::new(),
    });
    assert_eq!(r, Ok(Address::Vesting(Vec::new())));
    assert_eq!(token_amount(&l, &Address::Treasury(Vec::new())), Some(0));
}

#[test]
fn cliff_before_start_vests_nothing_until_start() {
    // Schedule ordering is not validated at enrollment; a claim between the
    // cliff and the start finds zero vested and nothing to claim.
    let mut l = Ledger::new();
    l.create_vesting_account(&CreateVestingAccount {
        signer: OWNER,
        mint: MINT,
        company_name: name(),
    })
    .unwrap();
    l.create_employee_account(&CreateEmployeeAccount {
        signer: OWNER,
        beneficiary: ALICE,
        vesting_account: Address::Vesting(name()),
        start_time: 500,
        end_time: 1000,
        cliff_time: 100,
        total_amount: 1000,
    })
    .unwrap();
    l.deposit(&Address::Treasury(name()), 1000).unwrap();
    assert_eq!(claim(&mut l, ALICE, 300), Err(ErrorCode::NoAmountToClaim));
    assert_eq!(claim(&mut l, ALICE, 750), Ok(500));
}
