use vstd::prelude::*;

use crate::address::AddressView;

verus! {

/// The longest company name accepted as a derivation seed, in bytes.
pub const MAX_COMPANY_NAME_LEN: usize = 50;

/// One grant: a company's vesting account. It owns the treasury that backs
/// every employee allocation enrolled under it.
pub struct VestingAccount {
    /// The identity that created the grant; the sole authority allowed to
    /// enroll employees under it.
    pub owner: u64,
    /// The token type backing the grant.
    pub mint: u64,
    /// The address of the custodial treasury account. Its transfer
    /// authority is the treasury address itself, proved by re-derivation,
    /// not by any stored secret.
    pub treasury_token_account: crate::address::Address,
    /// The company name, at most [`MAX_COMPANY_NAME_LEN`] bytes: the
    /// primary key from which this account and its treasury are derived.
    pub company_name: Vec<u8>,
    /// The derivation salt of the treasury address, recorded at creation.
    pub treasury_bump: u8,
    /// The derivation salt of this account's address, recorded at creation.
    pub bump: u8,
}

/// The mathematical content of a [`VestingAccount`].
pub struct VestingAccountView {
    pub owner: u64,
    pub mint: u64,
    pub treasury_token_account: AddressView,
    pub company_name: Seq<u8>,
    pub treasury_bump: u8,
    pub bump: u8,
}

impl View for VestingAccount {
    type V = VestingAccountView;

    open spec fn view(&self) -> VestingAccountView {
        VestingAccountView {
            owner: self.owner,
            mint: self.mint,
            treasury_token_account: self.treasury_token_account@,
            company_name: self.company_name@,
            treasury_bump: self.treasury_bump,
            bump: self.bump,
        }
    }
}

/// One employee allocation: the schedule and withdrawal ledger of a single
/// beneficiary under a single vesting account.
pub struct EmployeeAccount {
    /// The identity entitled to claim under this allocation.
    pub beneficiary: u64,
    /// When vesting accrual starts.
    pub start_time: i64,
    /// When the allocation is fully vested.
    pub end_time: i64,
    /// The earliest time at which any claim is permitted.
    pub cliff_time: i64,
    /// The address of the parent vesting account.
    pub vesting_account: crate::address::Address,
    /// The total ever claimable by the beneficiary, fixed at creation.
    pub total_amount: u64,
    /// The running total already transferred out; the only field that
    /// changes after creation, and it only grows.
    pub total_withdrawn: u64,
    /// The derivation salt of this account's address, recorded at creation.
    pub bump: u8,
}

/// The mathematical content of an [`EmployeeAccount`].
pub struct EmployeeAccountView {
    pub beneficiary: u64,
    pub start_time: i64,
    pub end_time: i64,
    pub cliff_time: i64,
    pub vesting_account: AddressView,
    pub total_amount: u64,
    pub total_withdrawn: u64,
    pub bump: u8,
}

impl View for EmployeeAccount {
    type V = EmployeeAccountView;

    open spec fn view(&self) -> EmployeeAccountView {
        EmployeeAccountView {
            beneficiary: self.beneficiary,
            start_time: self.start_time,
            end_time: self.end_time,
            cliff_time: self.cliff_time,
            vesting_account: self.vesting_account@,
            total_amount: self.total_amount,
            total_withdrawn: self.total_withdrawn,
            bump: self.bump,
        }
    }
}

/// A custodial token account: a balance of one token type held for an
/// authority. The treasury of a grant and the receiving account of a
/// beneficiary are both of this shape.
pub struct TokenAccount {
    /// The token type of the balance.
    pub mint: u64,
    /// The identity allowed to move the balance out.
    pub authority: crate::address::Address,
    /// The balance held.
    pub amount: u64,
}

/// The mathematical content of a [`TokenAccount`].
pub struct TokenAccountView {
    pub mint: u64,
    pub authority: AddressView,
    pub amount: u64,
}

impl View for TokenAccount {
    type V = TokenAccountView;

    open spec fn view(&self) -> TokenAccountView {
        TokenAccountView { mint: self.mint, authority: self.authority@, amount: self.amount }
    }
}

} // verus!
