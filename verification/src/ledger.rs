use vstd::prelude::*;

use crate::accounts::{
    EmployeeAccount, EmployeeAccountView, TokenAccount, TokenAccountView, VestingAccount,
    VestingAccountView, MAX_COMPANY_NAME_LEN,
};
use crate::address::{
    addr_eq, associated_token_address, bytes_clone, compute_salt, employee_account_address,
    salt_of, treasury_address, vesting_account_address, Address, AddressView,
};
use crate::errors::ErrorCode;
use crate::schedule::{claimable_of, compute_claimable, duration_of};

verus! {

/// The records of a store, as a mathematical object: each record under the
/// address it was created at.
#[verifier::ext_equal]
pub struct LedgerView {
    pub vesting_accounts: Map<AddressView, VestingAccountView>,
    pub employee_accounts: Map<AddressView, EmployeeAccountView>,
    pub token_accounts: Map<AddressView, TokenAccountView>,
}

/// The map a sequence of addressed records denotes: later entries shadow
/// earlier ones, which never happens in a store whose keys are unique.
pub open spec fn map_of<T: View>(s: Seq<(Address, T)>) -> Map<AddressView, T::V>
    decreases s.len(),
{
    if s.len() == 0 {
        Map::empty()
    } else {
        map_of(s.drop_last()).insert(s.last().0@, s.last().1@)
    }
}

/// No two entries sit at the same address.
pub open spec fn keys_unique<T>(s: Seq<(Address, T)>) -> bool {
    forall|i: int, j: int| 0 <= i < j < s.len() ==> s[i].0@ != s[j].0@
}

/// The denoted map holds a key exactly when some entry sits at it.
pub proof fn lemma_map_of_contains<T: View>(s: Seq<(Address, T)>, k: AddressView)
    ensures
        map_of(s).contains_key(k) <==> exists|i: int| 0 <= i < s.len() && s[i].0@ == k,
    decreases s.len(),
{
    if s.len() > 0 {
        lemma_map_of_contains(s.drop_last(), k);
        if map_of(s).contains_key(k) {
            if s.last().0@ != k {
                let i = choose|i: int| 0 <= i < s.drop_last().len() && s.drop_last()[i].0@ == k;
                assert(s[i].0@ == k);
            } else {
                assert(s[s.len() - 1].0@ == k);
            }
        } else {
            assert(forall|i: int| 0 <= i < s.len() - 1 ==> s.drop_last()[i] == s[i]);
        }
    }
}

/// With unique keys, the denoted map sends each entry's address to that
/// entry's record.
pub proof fn lemma_map_of_index<T: View>(s: Seq<(Address, T)>, i: int)
    requires
        keys_unique(s),
        0 <= i < s.len(),
    ensures
        map_of(s).contains_key(s[i].0@),
        map_of(s)[s[i].0@] == s[i].1@,
    decreases s.len(),
{
    if i == s.len() - 1 {
    } else {
        assert(forall|j: int| 0 <= j < s.len() - 1 ==> s.drop_last()[j] == s[j]);
        lemma_map_of_index(s.drop_last(), i);
        assert(s[i].0@ != s.last().0@);
    }
}

/// With unique keys, replacing the record of one entry updates the denoted
/// map at exactly that entry's address.
pub proof fn lemma_map_of_update<T: View>(s: Seq<(Address, T)>, i: int, a: Address, t: T)
    requires
        keys_unique(s),
        0 <= i < s.len(),
        a@ == s[i].0@,
    ensures
        map_of(s.update(i, (a, t))) == map_of(s).insert(s[i].0@, t@),
    decreases s.len(),
{
    let s2 = s.update(i, (a, t));
    if i == s.len() - 1 {
        assert(s2.drop_last() =~= s.drop_last());
        assert(map_of(s2) =~= map_of(s).insert(s[i].0@, t@));
    } else {
        assert(s2.drop_last() =~= s.drop_last().update(i, (a, t)));
        assert(s.drop_last()[i] == s[i]);
        lemma_map_of_update(s.drop_last(), i, a, t);
        assert(s2.last() == s.last());
        assert(s[i].0@ != s.last().0@);
        assert(map_of(s2) =~= map_of(s).insert(s[i].0@, t@));
    }
}

/// Appending an entry inserts it into the denoted map.
pub proof fn lemma_map_of_push<T: View>(s: Seq<(Address, T)>, a: Address, t: T)
    ensures
        map_of(s.push((a, t))) == map_of(s).insert(a@, t@),
{
    assert(s.push((a, t)).drop_last() =~= s);
}

/// Finds the entry at an address.
fn find_index<T>(entries: &Vec<(Address, T)>, key: &Address) -> (r: Option<usize>)
    ensures
        match r {
            Some(i) => i < entries@.len() && entries@[i as int].0@ == key@,
            None => forall|i: int| 0 <= i < entries@.len() ==> entries@[i].0@ != key@,
        },
{
    let mut i: usize = 0;
    while i < entries.len()
        invariant
            i <= entries@.len(),
            forall|j: int| 0 <= j < i ==> entries@[j].0@ != key@,
        decreases entries@.len() - i,
    {
        let entry = &entries[i];
        if addr_eq(&entry.0, key) {
            return Some(i);
        }
        i = i + 1;
    }
    None
}

/// The seed a vesting address was derived from, where it is one.
pub open spec fn vesting_name(a: AddressView) -> Seq<u8> {
    match a {
        AddressView::Vesting(name) => name,
        _ => Seq::empty(),
    }
}

/// Well-formedness of an employee record stored under a key: the key is the
/// derivation from the record's own seeds, the recorded salt matches the
/// key, the parent reference is a vesting address, and the withdrawal
/// ledger never exceeds the allocation.
pub open spec fn wf_employee_entry(key: AddressView, e: EmployeeAccountView) -> bool {
    &&& e.vesting_account is Vesting
    &&& key == AddressView::Employee(e.beneficiary, vesting_name(e.vesting_account))
    &&& e.total_withdrawn <= e.total_amount
    &&& e.bump == salt_of(key)
}

/// Well-formedness of a vesting record stored under a key in a store: the
/// key and the recorded treasury address are the derivations from the
/// recorded company name, the recorded salts match them, and the treasury
/// token account exists, holds the grant's token type, and is its own
/// transfer authority.
pub open spec fn wf_vesting_entry(l: LedgerView, key: AddressView, v: VestingAccountView) -> bool {
    &&& key == AddressView::Vesting(v.company_name)
    &&& v.company_name.len() <= MAX_COMPANY_NAME_LEN
    &&& v.bump == salt_of(key)
    &&& v.treasury_token_account == AddressView::Treasury(v.company_name)
    &&& v.treasury_bump == salt_of(v.treasury_token_account)
    &&& l.token_accounts.contains_key(v.treasury_token_account)
    &&& l.token_accounts[v.treasury_token_account].mint == v.mint
    &&& l.token_accounts[v.treasury_token_account].authority == v.treasury_token_account
}

/// Well-formedness of a whole store.
pub open spec fn wf_ledger(l: LedgerView) -> bool {
    &&& forall|k: AddressView| #[trigger]
        l.vesting_accounts.contains_key(k) ==> wf_vesting_entry(l, k, l.vesting_accounts[k])
    &&& forall|k: AddressView| #[trigger]
        l.employee_accounts.contains_key(k) ==> wf_employee_entry(k, l.employee_accounts[k])
    &&& forall|name: Seq<u8>| #[trigger]
        l.token_accounts.contains_key(AddressView::Treasury(name))
            ==> l.vesting_accounts.contains_key(AddressView::Vesting(name))
    &&& forall|o: u64, m: u64| #[trigger]
        l.token_accounts.contains_key(AddressView::AssociatedToken(o, m)) ==> {
            &&& l.token_accounts[AddressView::AssociatedToken(o, m)].mint == m
            &&& l.token_accounts[AddressView::AssociatedToken(o, m)].authority
                == AddressView::Wallet(o)
        }
}

/// A request to create the vesting account of a company: the signer
/// becomes its owner, the mint is the token type backing the grant, and
/// the company name is the seed its address is derived from. No tokens
/// move; the treasury is created empty and funded out of band.
pub struct CreateVestingAccount {
    pub signer: u64,
    pub mint: u64,
    pub company_name: Vec<u8>,
}

/// A request to enroll a beneficiary under an existing vesting account,
/// with the schedule and the total allocation. Only the vesting account's
/// owner may sign it.
pub struct CreateEmployeeAccount {
    pub signer: u64,
    pub beneficiary: u64,
    pub vesting_account: Address,
    pub start_time: i64,
    pub end_time: i64,
    pub cliff_time: i64,
    pub total_amount: u64,
}

/// A claim against the grant of the named company, at the given reading of
/// the ambient clock. Only the enrolled beneficiary can claim: the employee
/// account is looked up at the address derived from the signer itself.
pub struct ClaimTokens {
    pub signer: u64,
    pub company_name: Vec<u8>,
    pub now: i64,
}

/// The persistent record store the engine operates against: every record
/// keyed by the address it was created at. Each operation commits all of
/// its changes or none of them.
pub struct Ledger {
    pub vesting_accounts: Vec<(Address, VestingAccount)>,
    pub employee_accounts: Vec<(Address, EmployeeAccount)>,
    pub token_accounts: Vec<(Address, TokenAccount)>,
}

impl View for Ledger {
    type V = LedgerView;

    open spec fn view(&self) -> LedgerView {
        LedgerView {
            vesting_accounts: map_of(self.vesting_accounts@),
            employee_accounts: map_of(self.employee_accounts@),
            token_accounts: map_of(self.token_accounts@),
        }
    }
}

impl Ledger {
    /// The store's invariant: addresses are unique, and every record is
    /// well-formed with respect to the key it sits under.
    pub open spec fn inv(&self) -> bool {
        &&& keys_unique(self.vesting_accounts@)
        &&& keys_unique(self.employee_accounts@)
        &&& keys_unique(self.token_accounts@)
        &&& wf_ledger(self@)
    }

    /// Creates an empty store.
    pub fn new() -> (l: Ledger)
        ensures
            l.inv(),
            l@.vesting_accounts == Map::<AddressView, VestingAccountView>::empty(),
            l@.employee_accounts == Map::<AddressView, EmployeeAccountView>::empty(),
            l@.token_accounts == Map::<AddressView, TokenAccountView>::empty(),
    {
        Ledger { vesting_accounts: Vec::new(), employee_accounts: Vec::new(), token_accounts: Vec::new() }
    }

    /// Creates a company's vesting account and its empty treasury.
    ///
    /// The account's address is derived from the company name, so a second
    /// creation under the same name finds the first record and fails with
    /// [`ErrorCode::AlreadyExists`]; a name longer than
    /// [`MAX_COMPANY_NAME_LEN`] bytes is rejected before anything is
    /// stored. On success the request's signer is recorded as owner, the
    /// derived treasury is created empty with itself as transfer
    /// authority, and both derivation salts are recorded.
    pub fn create_vesting_account(&mut self, req: &CreateVestingAccount) -> (r: Result<
        Address,
        ErrorCode,
    >)
        requires
            old(self).inv(),
        ensures
            final(self).inv(),
            ({
                let key = AddressView::Vesting(req.company_name@);
                let tkey = AddressView::Treasury(req.company_name@);
                if req.company_name@.len() > MAX_COMPANY_NAME_LEN {
                    &&& r == Err::<Address, ErrorCode>(ErrorCode::InvalidCompanyName)
                    &&& final(self)@ == old(self)@
                } else if old(self)@.vesting_accounts.contains_key(key) {
                    &&& r == Err::<Address, ErrorCode>(ErrorCode::AlreadyExists)
                    &&& final(self)@ == old(self)@
                } else {
                    &&& (r matches Ok(a) && a@ == key)
                    &&& final(self)@.vesting_accounts == old(self)@.vesting_accounts.insert(
                        key,
                        VestingAccountView {
                            owner: req.signer,
                            mint: req.mint,
                            treasury_token_account: tkey,
                            company_name: req.company_name@,
                            treasury_bump: salt_of(tkey),
                            bump: salt_of(key),
                        },
                    )
                    &&& final(self)@.employee_accounts == old(self)@.employee_accounts
                    &&& final(self)@.token_accounts == old(self)@.token_accounts.insert(
                        tkey,
                        TokenAccountView { mint: req.mint, authority: tkey, amount: 0 },
                    )
                }
            }),
    {
        if req.company_name.len() > MAX_COMPANY_NAME_LEN {
            return Err(ErrorCode::InvalidCompanyName);
        }
        let vesting_key = vesting_account_address(&req.company_name);
        proof {
            lemma_map_of_contains(self.vesting_accounts@, vesting_key@);
        }
        match find_index(&self.vesting_accounts, &vesting_key) {
            Some(_) => {
                return Err(ErrorCode::AlreadyExists);
            },
            None => {},
        }
        let treasury_key = treasury_address(&req.company_name);
        let treasury_bump = compute_salt(&treasury_key);
        let bump = compute_salt(&vesting_key);
        let record = VestingAccount {
            owner: req.signer,
            mint: req.mint,
            treasury_token_account: treasury_address(&req.company_name),
            company_name: bytes_clone(&req.company_name),
            treasury_bump,
            bump,
        };
        let token_record = TokenAccount {
            mint: req.mint,
            authority: treasury_address(&req.company_name),
            amount: 0,
        };
        proof {
            lemma_map_of_contains(self.token_accounts@, treasury_key@);
            lemma_map_of_push(self.vesting_accounts@, vesting_key, record);
            lemma_map_of_push(self.token_accounts@, treasury_key, token_record);
        }
        self.vesting_accounts.push((vesting_key, record));
        self.token_accounts.push((treasury_key, token_record));
        proof {
            assert(self.vesting_accounts@.drop_last() =~= old(self).vesting_accounts@);
            assert(self.token_accounts@.drop_last() =~= old(self).token_accounts@);
            lemma_inv_after_create_vesting(*old(self), *self, req);
        }
        Ok(vesting_account_address(&req.company_name))
    }

    /// Enrolls a beneficiary under an existing vesting account.
    ///
    /// The parent is looked up at the address the request names; a request
    /// that names no existing vesting account, or whose signer is not the
    /// recorded owner, fails with [`ErrorCode::Unauthorized`]. The employee
    /// account's address is derived from the beneficiary and the parent's
    /// company name, so enrolling the same beneficiary twice under one
    /// grant fails with [`ErrorCode::AlreadyExists`]. The schedule times
    /// are recorded as given — their ordering is the grantor's
    /// responsibility, and a degenerate schedule is rejected at claim time
    /// — and the withdrawal ledger starts at zero.
    pub fn create_employee_account(&mut self, req: &CreateEmployeeAccount) -> (r: Result<
        Address,
        ErrorCode,
    >)
        requires
            old(self).inv(),
        ensures
            final(self).inv(),
            ({
                let va_key = req.vesting_account@;
                if !old(self)@.vesting_accounts.contains_key(va_key) {
                    &&& r == Err::<Address, ErrorCode>(ErrorCode::Unauthorized)
                    &&& final(self)@ == old(self)@
                } else if old(self)@.vesting_accounts[va_key].owner != req.signer {
                    &&& r == Err::<Address, ErrorCode>(ErrorCode::Unauthorized)
                    &&& final(self)@ == old(self)@
                } else {
                    let name = old(self)@.vesting_accounts[va_key].company_name;
                    let ea_key = AddressView::Employee(req.beneficiary, name);
                    if old(self)@.employee_accounts.contains_key(ea_key) {
                        &&& r == Err::<Address, ErrorCode>(ErrorCode::AlreadyExists)
                        &&& final(self)@ == old(self)@
                    } else {
                        &&& (r matches Ok(a) && a@ == ea_key)
                        &&& final(self)@.employee_accounts
                            == old(self)@.employee_accounts.insert(
                            ea_key,
                            EmployeeAccountView {
                                beneficiary: req.beneficiary,
                                start_time: req.start_time,
                                end_time: req.end_time,
                                cliff_time: req.cliff_time,
                                vesting_account: AddressView::Vesting(name),
                                total_amount: req.total_amount,
                                total_withdrawn: 0,
                                bump: salt_of(ea_key),
                            },
                        )
                        &&& final(self)@.vesting_accounts == old(self)@.vesting_accounts
                        &&& final(self)@.token_accounts == old(self)@.token_accounts
                    }
                }
            }),
    {
        proof {
            lemma_map_of_contains(self.vesting_accounts@, req.vesting_account@);
        }
        let idx = match find_index(&self.vesting_accounts, &req.vesting_account) {
            Some(i) => i,
            None => {
                return Err(ErrorCode::Unauthorized);
            },
        };
        proof {
            lemma_map_of_index(self.vesting_accounts@, idx as int);
        }
        let va = &self.vesting_accounts[idx].1;
        if va.owner != req.signer {
            return Err(ErrorCode::Unauthorized);
        }
        let ea_key = employee_account_address(req.beneficiary, &va.company_name);
        proof {
            lemma_map_of_contains(self.employee_accounts@, ea_key@);
        }
        match find_index(&self.employee_accounts, &ea_key) {
            Some(_) => {
                return Err(ErrorCode::AlreadyExists);
            },
            None => {},
        }
        let bump = compute_salt(&ea_key);
        let record = EmployeeAccount {
            beneficiary: req.beneficiary,
            start_time: req.start_time,
            end_time: req.end_time,
            cliff_time: req.cliff_time,
            vesting_account: vesting_account_address(&va.company_name),
            total_amount: req.total_amount,
            total_withdrawn: 0,
            bump,
        };
        let result_addr = employee_account_address(req.beneficiary, &va.company_name);
        proof {
            lemma_map_of_push(self.employee_accounts@, ea_key, record);
        }
        self.employee_accounts.push((ea_key, record));
        proof {
            assert(self.employee_accounts@.drop_last() =~= old(self).employee_accounts@);
            assert(keys_unique(self.employee_accounts@)) by {
                assert(forall|i: int| 0 <= i < old(self).employee_accounts@.len()
                    ==> self.employee_accounts@[i] == old(self).employee_accounts@[i]);
            }
            assert(self@.vesting_accounts == old(self)@.vesting_accounts);
            assert(self@.token_accounts == old(self)@.token_accounts);
            lemma_wf_after_employee_insert(old(self)@, self@);
        }
        Ok(result_addr)
    }

    /// Claims everything currently claimable under the named company's
    /// grant for the signing beneficiary, at the given reading of the
    /// ambient clock, and returns the amount transferred.
    ///
    /// The vesting account and the employee account are looked up at the
    /// addresses re-derived from the request's seeds — never taken from the
    /// caller — so a company that was never created, or a signer that is
    /// not an enrolled beneficiary of it, fails with
    /// [`ErrorCode::Unauthorized`] whatever the vesting state. A claim
    /// before the cliff fails with [`ErrorCode::ClaimNotAvailable`], a
    /// schedule without positive duration with
    /// [`ErrorCode::InvalidVestingTime`], and a claimable amount of zero
    /// with [`ErrorCode::NoAmountToClaim`]. The transfer out of the
    /// treasury is authorized by re-deriving the treasury's address and
    /// salt against the record; if the treasury balance cannot cover the
    /// amount, or the beneficiary's receiving balance cannot take it, the
    /// claim fails with [`ErrorCode::TransferError`]. Only a fully
    /// performed transfer is recorded: on success, and only then, the
    /// amount moves from the treasury to the beneficiary's receiving
    /// account — created empty first if it did not exist — and is added to
    /// the employee's withdrawal ledger. On any error the store is
    /// unchanged.
    pub fn claim_tokens(&mut self, req: &ClaimTokens) -> (r: Result<u64, ErrorCode>)
        requires
            old(self).inv(),
        ensures
            final(self).inv(),
            r is Err ==> final(self)@ == old(self)@,
            ({
                let l = old(self)@;
                let va_key = AddressView::Vesting(req.company_name@);
                let ea_key = AddressView::Employee(req.signer, req.company_name@);
                if !l.vesting_accounts.contains_key(va_key) {
                    r == Err::<u64, ErrorCode>(ErrorCode::Unauthorized)
                } else if !l.employee_accounts.contains_key(ea_key) {
                    r == Err::<u64, ErrorCode>(ErrorCode::Unauthorized)
                } else {
                    let va = l.vesting_accounts[va_key];
                    let e = l.employee_accounts[ea_key];
                    let tkey = va.treasury_token_account;
                    let treasury = l.token_accounts[tkey];
                    let ata_key = AddressView::AssociatedToken(req.signer, va.mint);
                    let amt = claimable_of(e, req.now);
                    if req.now < e.cliff_time {
                        r == Err::<u64, ErrorCode>(ErrorCode::ClaimNotAvailable)
                    } else if duration_of(e.start_time, e.end_time) <= 0 {
                        r == Err::<u64, ErrorCode>(ErrorCode::InvalidVestingTime)
                    } else if amt == 0 {
                        r == Err::<u64, ErrorCode>(ErrorCode::NoAmountToClaim)
                    } else if treasury.amount < amt {
                        r == Err::<u64, ErrorCode>(ErrorCode::TransferError)
                    } else if l.token_accounts.contains_key(ata_key)
                        && l.token_accounts[ata_key].amount + amt > u64::MAX {
                        r == Err::<u64, ErrorCode>(ErrorCode::TransferError)
                    } else {
                        &&& (r matches Ok(a) && a == amt)
                        &&& final(self)@.vesting_accounts == l.vesting_accounts
                        &&& final(self)@.employee_accounts == l.employee_accounts.insert(
                            ea_key,
                            EmployeeAccountView {
                                total_withdrawn: (e.total_withdrawn + amt) as u64,
                                ..e
                            },
                        )
                        &&& final(self)@.token_accounts == l.token_accounts.insert(
                            tkey,
                            TokenAccountView { amount: (treasury.amount - amt) as u64, ..treasury },
                        ).insert(
                            ata_key,
                            if l.token_accounts.contains_key(ata_key) {
                                TokenAccountView {
                                    amount: (l.token_accounts[ata_key].amount + amt) as u64,
                                    ..l.token_accounts[ata_key]
                                }
                            } else {
                                TokenAccountView {
                                    mint: va.mint,
                                    authority: AddressView::Wallet(req.signer),
                                    amount: amt as u64,
                                }
                            },
                        )
                    }
                }
            }),
    {
        let vesting_key = vesting_account_address(&req.company_name);
        proof {
            lemma_map_of_contains(self.vesting_accounts@, vesting_key@);
        }
        let va_idx = match find_index(&self.vesting_accounts, &vesting_key) {
            Some(i) => i,
            None => {
                return Err(ErrorCode::Unauthorized);
            },
        };
        proof {
            lemma_map_of_index(self.vesting_accounts@, va_idx as int);
        }
        let ea_key = employee_account_address(req.signer, &req.company_name);
        proof {
            lemma_map_of_contains(self.employee_accounts@, ea_key@);
        }
        let ea_idx = match find_index(&self.employee_accounts, &ea_key) {
            Some(i) => i,
            None => {
                return Err(ErrorCode::Unauthorized);
            },
        };
        proof {
            lemma_map_of_index(self.employee_accounts@, ea_idx as int);
        }
        let va = &self.vesting_accounts[va_idx].1;
        let e = &self.employee_accounts[ea_idx].1;
        // Bind the claim to exactly this beneficiary and this grant: the
        // records must carry the identities the addresses were derived
        // from, and the treasury authority must re-derive from the seeds
        // and salt on record. Under the store invariant none of these
        // checks can fail; they are what makes a spoofed record unable to
        // authorize a transfer.
        if e.beneficiary != req.signer {
            return Err(ErrorCode::Unauthorized);
        }
        if !addr_eq(&e.vesting_account, &vesting_key) {
            return Err(ErrorCode::Unauthorized);
        }
        let treasury_key = treasury_address(&req.company_name);
        if !addr_eq(&va.treasury_token_account, &treasury_key) {
            return Err(ErrorCode::Unauthorized);
        }
        if va.treasury_bump != compute_salt(&treasury_key) {
            return Err(ErrorCode::Unauthorized);
        }
        proof {
            lemma_map_of_contains(self.token_accounts@, treasury_key@);
        }
        let t_idx = match find_index(&self.token_accounts, &treasury_key) {
            Some(i) => i,
            None => {
                return Err(ErrorCode::Unauthorized);
            },
        };
        proof {
            lemma_map_of_index(self.token_accounts@, t_idx as int);
        }
        let amount = match compute_claimable(e, req.now) {
            Ok(a) => a,
            Err(code) => {
                return Err(code);
            },
        };
        proof {
            crate::schedule::lemma_vested_bounded(e.total_amount, e.start_time, e.end_time, req.now);
        }
        let treasury = &self.token_accounts[t_idx].1;
        if treasury.amount < amount {
            return Err(ErrorCode::TransferError);
        }
        let mint = va.mint;
        let new_treasury = TokenAccount {
            mint: treasury.mint,
            authority: treasury.authority.clone(),
            amount: treasury.amount - amount,
        };
        let ata_key = associated_token_address(req.signer, mint);
        proof {
            lemma_map_of_contains(self.token_accounts@, ata_key@);
        }
        let ata_idx_opt = find_index(&self.token_accounts, &ata_key);
        let new_ata = match ata_idx_opt {
            Some(j) => {
                proof {
                    lemma_map_of_index(self.token_accounts@, j as int);
                }
                let ata = &self.token_accounts[j].1;
                if ata.amount > u64::MAX - amount {
                    return Err(ErrorCode::TransferError);
                }
                TokenAccount {
                    mint: ata.mint,
                    authority: ata.authority.clone(),
                    amount: ata.amount + amount,
                }
            },
            None => TokenAccount {
                mint,
                authority: Address::Wallet(req.signer),
                amount,
            },
        };
        let new_e = EmployeeAccount {
            beneficiary: e.beneficiary,
            start_time: e.start_time,
            end_time: e.end_time,
            cliff_time: e.cliff_time,
            vesting_account: e.vesting_account.clone(),
            total_amount: e.total_amount,
            total_withdrawn: e.total_withdrawn + amount,
            bump: e.bump,
        };
        let ghost g_new_e = new_e@;
        let ghost g_new_treasury = new_treasury@;
        let ghost g_new_ata = new_ata@;
        let ea_store_key = employee_account_address(req.signer, &req.company_name);
        proof {
            lemma_map_of_update(self.employee_accounts@, ea_idx as int, ea_store_key, new_e);
            assert(keys_unique(self.employee_accounts@.update(
                ea_idx as int,
                (ea_store_key, new_e),
            ))) by {
                assert(forall|i: int| 0 <= i < self.employee_accounts@.len() && i != ea_idx
                    ==> self.employee_accounts@.update(
                        ea_idx as int,
                        (ea_store_key, new_e),
                    )[i] == self.employee_accounts@[i]);
            }
        }
        self.employee_accounts[ea_idx] = (ea_store_key, new_e);
        let treasury_store_key = treasury_address(&req.company_name);
        proof {
            lemma_map_of_update(self.token_accounts@, t_idx as int, treasury_store_key, new_treasury);
            assert(keys_unique(self.token_accounts@.update(
                t_idx as int,
                (treasury_store_key, new_treasury),
            ))) by {
                assert(forall|i: int| 0 <= i < self.token_accounts@.len() && i != t_idx
                    ==> self.token_accounts@.update(
                        t_idx as int,
                        (treasury_store_key, new_treasury),
                    )[i] == self.token_accounts@[i]);
            }
        }
        self.token_accounts[t_idx] = (treasury_store_key, new_treasury);
        match ata_idx_opt {
            Some(j) => {
                proof {
                    lemma_map_of_update(self.token_accounts@, j as int, ata_key, new_ata);
                    assert(keys_unique(self.token_accounts@.update(
                        j as int,
                        (ata_key, new_ata),
                    ))) by {
                        assert(forall|i: int| 0 <= i < self.token_accounts@.len() && i != j
                            ==> self.token_accounts@.update(
                                j as int,
                                (ata_key, new_ata),
                            )[i] == self.token_accounts@[i]);
                    }
                }
                self.token_accounts[j] = (ata_key, new_ata);
            },
            None => {
                proof {
                    lemma_map_of_push(self.token_accounts@, ata_key, new_ata);
                    assert(keys_unique(self.token_accounts@.push((ata_key, new_ata)))) by {
                        assert(forall|i: int| 0 <= i < self.token_accounts@.len()
                            ==> self.token_accounts@.push((ata_key, new_ata))[i]
                                == self.token_accounts@[i]);
                    }
                }
                self.token_accounts.push((ata_key, new_ata));
            },
        }
        proof {
            lemma_wf_after_claim(
                old(self)@,
                self@,
                req.company_name@,
                req.signer,
                g_new_e,
                g_new_treasury,
                g_new_ata,
            );
        }
        Ok(amount)
    }

    /// Credits an out-of-band deposit to an existing token account. This is
    /// how a treasury is funded: grant creation moves no tokens.
    ///
    /// A deposit to an address where no token account exists fails with
    /// [`ErrorCode::Unauthorized`]; one the balance cannot take fails with
    /// [`ErrorCode::TransferError`]. Nothing else about the account
    /// changes.
    pub fn deposit(&mut self, account: &Address, amount: u64) -> (r: Result<(), ErrorCode>)
        requires
            old(self).inv(),
        ensures
            final(self).inv(),
            r is Err ==> final(self)@ == old(self)@,
            ({
                let key = account@;
                if !old(self)@.token_accounts.contains_key(key) {
                    r == Err::<(), ErrorCode>(ErrorCode::Unauthorized)
                } else if old(self)@.token_accounts[key].amount + amount > u64::MAX {
                    r == Err::<(), ErrorCode>(ErrorCode::TransferError)
                } else {
                    &&& r == Ok::<(), ErrorCode>(())
                    &&& final(self)@.token_accounts == old(self)@.token_accounts.insert(
                        key,
                        TokenAccountView {
                            amount: (old(self)@.token_accounts[key].amount + amount) as u64,
                            ..old(self)@.token_accounts[key]
                        },
                    )
                    &&& final(self)@.vesting_accounts == old(self)@.vesting_accounts
                    &&& final(self)@.employee_accounts == old(self)@.employee_accounts
                }
            }),
    {
        proof {
            lemma_map_of_contains(self.token_accounts@, account@);
        }
        let idx = match find_index(&self.token_accounts, account) {
            Some(i) => i,
            None => {
                return Err(ErrorCode::Unauthorized);
            },
        };
        proof {
            lemma_map_of_index(self.token_accounts@, idx as int);
        }
        let t = &self.token_accounts[idx].1;
        if t.amount > u64::MAX - amount {
            return Err(ErrorCode::TransferError);
        }
        let new_t = TokenAccount {
            mint: t.mint,
            authority: t.authority.clone(),
            amount: t.amount + amount,
        };
        let store_key = (*account).clone();
        proof {
            lemma_map_of_update(self.token_accounts@, idx as int, store_key, new_t);
            assert(keys_unique(self.token_accounts@.update(idx as int, (store_key, new_t)))) by {
                assert(forall|i: int| 0 <= i < self.token_accounts@.len() && i != idx
                    ==> self.token_accounts@.update(idx as int, (store_key, new_t))[i]
                        == self.token_accounts@[i]);
            }
        }
        self.token_accounts[idx] = (store_key, new_t);
        proof {
            lemma_wf_after_amount_change(old(self)@, self@, account@);
        }
        Ok(())
    }
}

/// Changing only the balance of one existing token account preserves the
/// well-formedness of the store.
proof fn lemma_wf_after_amount_change(pre: LedgerView, post: LedgerView, key: AddressView)
    requires
        wf_ledger(pre),
        pre.token_accounts.contains_key(key),
        post.vesting_accounts == pre.vesting_accounts,
        post.employee_accounts == pre.employee_accounts,
        post.token_accounts == pre.token_accounts.insert(
            key,
            TokenAccountView {
                amount: post.token_accounts[key].amount,
                ..pre.token_accounts[key]
            },
        ),
    ensures
        wf_ledger(post),
{
    assert forall|k: AddressView| #[trigger] post.vesting_accounts.contains_key(k) implies
        wf_vesting_entry(post, k, post.vesting_accounts[k]) by {
        assert(pre.vesting_accounts.contains_key(k));
        assert(wf_vesting_entry(pre, k, pre.vesting_accounts[k]));
    }
    assert forall|k: AddressView| #[trigger] post.employee_accounts.contains_key(k) implies
        wf_employee_entry(k, post.employee_accounts[k]) by {
        assert(pre.employee_accounts.contains_key(k));
        assert(wf_employee_entry(k, pre.employee_accounts[k]));
    }
    assert forall|n: Seq<u8>| #[trigger] post.token_accounts.contains_key(
        AddressView::Treasury(n),
    ) implies post.vesting_accounts.contains_key(AddressView::Vesting(n)) by {
        assert(pre.token_accounts.contains_key(AddressView::Treasury(n)));
    }
    assert forall|o: u64, m: u64| #[trigger] post.token_accounts.contains_key(
        AddressView::AssociatedToken(o, m),
    ) implies {
        &&& post.token_accounts[AddressView::AssociatedToken(o, m)].mint == m
        &&& post.token_accounts[AddressView::AssociatedToken(o, m)].authority
            == AddressView::Wallet(o)
    } by {
        assert(pre.token_accounts.contains_key(AddressView::AssociatedToken(o, m)));
    }
}

/// After any sequence of operations against a well-formed store, no
/// employee's withdrawal ledger exceeds its allocation: the bound is part
/// of the invariant every operation preserves.
pub proof fn lemma_withdrawals_bounded(l: Ledger)
    requires
        l.inv(),
    ensures
        forall|k: AddressView| #[trigger] l@.employee_accounts.contains_key(k)
            ==> l@.employee_accounts[k].total_withdrawn <= l@.employee_accounts[k].total_amount,
{
}

/// A claim can only bind to an employee account whose recorded beneficiary
/// is the signer it was looked up by: the address an employee record sits
/// under is derived from its own beneficiary, so a caller who is not the
/// beneficiary derives an address that holds no record and is turned away
/// unauthorized, whatever the vesting state.
pub proof fn lemma_claim_binds_beneficiary(l: Ledger, signer: u64, name: Seq<u8>)
    requires
        l.inv(),
        l@.employee_accounts.contains_key(AddressView::Employee(signer, name)),
    ensures
        l@.employee_accounts[AddressView::Employee(signer, name)].beneficiary == signer,
{
}

/// Recording a fully performed claim preserves the well-formedness of the
/// store: the employee's ledger grows within its allocation, and the two
/// token balances change without touching any identity a record is bound
/// to.
proof fn lemma_wf_after_claim(
    pre: LedgerView,
    post: LedgerView,
    name: Seq<u8>,
    signer: u64,
    new_e: EmployeeAccountView,
    new_treasury: TokenAccountView,
    new_ata: TokenAccountView,
)
    requires
        wf_ledger(pre),
        pre.vesting_accounts.contains_key(AddressView::Vesting(name)),
        pre.employee_accounts.contains_key(AddressView::Employee(signer, name)),
        ({
            let va = pre.vesting_accounts[AddressView::Vesting(name)];
            let e = pre.employee_accounts[AddressView::Employee(signer, name)];
            let tkey = va.treasury_token_account;
            let ata_key = AddressView::AssociatedToken(signer, va.mint);
            &&& new_e == EmployeeAccountView { total_withdrawn: new_e.total_withdrawn, ..e }
            &&& new_e.total_withdrawn <= new_e.total_amount
            &&& new_treasury == TokenAccountView {
                amount: new_treasury.amount,
                ..pre.token_accounts[tkey]
            }
            &&& (pre.token_accounts.contains_key(ata_key) ==> new_ata == TokenAccountView {
                amount: new_ata.amount,
                ..pre.token_accounts[ata_key]
            })
            &&& (!pre.token_accounts.contains_key(ata_key) ==> new_ata == TokenAccountView {
                mint: va.mint,
                authority: AddressView::Wallet(signer),
                amount: new_ata.amount,
            })
            &&& post.vesting_accounts == pre.vesting_accounts
            &&& post.employee_accounts == pre.employee_accounts.insert(
                AddressView::Employee(signer, name),
                new_e,
            )
            &&& post.token_accounts == pre.token_accounts.insert(tkey, new_treasury).insert(
                ata_key,
                new_ata,
            )
        }),
    ensures
        wf_ledger(post),
{
    let va = pre.vesting_accounts[AddressView::Vesting(name)];
    let tkey = va.treasury_token_account;
    let ata_key = AddressView::AssociatedToken(signer, va.mint);
    assert(wf_vesting_entry(pre, AddressView::Vesting(name), va));
    assert forall|k: AddressView| #[trigger] post.vesting_accounts.contains_key(k) implies
        wf_vesting_entry(post, k, post.vesting_accounts[k]) by {
        assert(pre.vesting_accounts.contains_key(k));
        assert(wf_vesting_entry(pre, k, pre.vesting_accounts[k]));
        let v = pre.vesting_accounts[k];
        if v.treasury_token_account == tkey {
            assert(post.token_accounts[tkey].mint == new_treasury.mint);
        }
    }
    assert forall|k: AddressView| #[trigger] post.employee_accounts.contains_key(k) implies
        wf_employee_entry(k, post.employee_accounts[k]) by {
        if k == AddressView::Employee(signer, name) {
            assert(wf_employee_entry(k, pre.employee_accounts[k]));
        } else {
            assert(pre.employee_accounts.contains_key(k));
            assert(wf_employee_entry(k, pre.employee_accounts[k]));
        }
    }
    assert forall|n: Seq<u8>| #[trigger] post.token_accounts.contains_key(
        AddressView::Treasury(n),
    ) implies post.vesting_accounts.contains_key(AddressView::Vesting(n)) by {
        assert(pre.token_accounts.contains_key(AddressView::Treasury(n)));
    }
    assert forall|o: u64, m: u64| #[trigger] post.token_accounts.contains_key(
        AddressView::AssociatedToken(o, m),
    ) implies {
        &&& post.token_accounts[AddressView::AssociatedToken(o, m)].mint == m
        &&& post.token_accounts[AddressView::AssociatedToken(o, m)].authority
            == AddressView::Wallet(o)
    } by {
        if AddressView::AssociatedToken(o, m) == ata_key {
            if pre.token_accounts.contains_key(ata_key) {
                assert(pre.token_accounts[ata_key].mint == m);
            }
        } else {
            assert(pre.token_accounts.contains_key(AddressView::AssociatedToken(o, m)));
        }
    }
}

/// Inserting one well-formed employee record preserves the well-formedness
/// of a store whose other records are untouched.
proof fn lemma_wf_after_employee_insert(pre: LedgerView, post: LedgerView)
    requires
        wf_ledger(pre),
        post.vesting_accounts == pre.vesting_accounts,
        post.token_accounts == pre.token_accounts,
        forall|k: AddressView| #[trigger] post.employee_accounts.contains_key(k)
            ==> wf_employee_entry(k, post.employee_accounts[k]) || (
        pre.employee_accounts.contains_key(k) && post.employee_accounts[k]
            == pre.employee_accounts[k]),
    ensures
        wf_ledger(post),
{
    assert forall|k: AddressView| #[trigger] post.vesting_accounts.contains_key(k) implies
        wf_vesting_entry(post, k, post.vesting_accounts[k]) by {
        assert(pre.vesting_accounts.contains_key(k));
        assert(wf_vesting_entry(pre, k, pre.vesting_accounts[k]));
    }
    assert forall|k: AddressView| #[trigger] post.employee_accounts.contains_key(k) implies
        wf_employee_entry(k, post.employee_accounts[k]) by {
        if pre.employee_accounts.contains_key(k) && post.employee_accounts[k]
            == pre.employee_accounts[k] {
            assert(wf_employee_entry(k, pre.employee_accounts[k]));
        }
    }
}

/// Creating a grant preserves the store invariant: the two appended records
/// sit at fresh derived addresses and are well-formed, and every record
/// already present keeps its well-formedness because no address it refers
/// to collides with the new ones.
proof fn lemma_inv_after_create_vesting(
    pre: Ledger,
    post: Ledger,
    req: &CreateVestingAccount,
)
    requires
        pre.inv(),
        req.company_name@.len() <= MAX_COMPANY_NAME_LEN,
        !pre@.vesting_accounts.contains_key(AddressView::Vesting(req.company_name@)),
        !pre@.token_accounts.contains_key(AddressView::Treasury(req.company_name@)),
        forall|i: int| 0 <= i < pre.vesting_accounts@.len()
            ==> pre.vesting_accounts@[i].0@ != AddressView::Vesting(req.company_name@),
        forall|i: int| 0 <= i < pre.token_accounts@.len()
            ==> pre.token_accounts@[i].0@ != AddressView::Treasury(req.company_name@),
        post.vesting_accounts@.len() == pre.vesting_accounts@.len() + 1,
        post.vesting_accounts@.drop_last() == pre.vesting_accounts@,
        post.vesting_accounts@.last().0@ == AddressView::Vesting(req.company_name@),
        post.employee_accounts@ == pre.employee_accounts@,
        post.token_accounts@.len() == pre.token_accounts@.len() + 1,
        post.token_accounts@.drop_last() == pre.token_accounts@,
        post.token_accounts@.last().0@ == AddressView::Treasury(req.company_name@),
        post@.vesting_accounts == pre@.vesting_accounts.insert(
            AddressView::Vesting(req.company_name@),
            VestingAccountView {
                owner: req.signer,
                mint: req.mint,
                treasury_token_account: AddressView::Treasury(req.company_name@),
                company_name: req.company_name@,
                treasury_bump: salt_of(AddressView::Treasury(req.company_name@)),
                bump: salt_of(AddressView::Vesting(req.company_name@)),
            },
        ),
        post@.token_accounts == pre@.token_accounts.insert(
            AddressView::Treasury(req.company_name@),
            TokenAccountView {
                mint: req.mint,
                authority: AddressView::Treasury(req.company_name@),
                amount: 0,
            },
        ),
    ensures
        post.inv(),
{
    let key = AddressView::Vesting(req.company_name@);
    let tkey = AddressView::Treasury(req.company_name@);
    assert(keys_unique(post.vesting_accounts@)) by {
        assert(forall|i: int| 0 <= i < pre.vesting_accounts@.len()
            ==> post.vesting_accounts@[i] == pre.vesting_accounts@[i]);
    }
    assert(keys_unique(post.token_accounts@)) by {
        assert(forall|i: int| 0 <= i < pre.token_accounts@.len()
            ==> post.token_accounts@[i] == pre.token_accounts@[i]);
    }
    assert forall|k: AddressView| #[trigger] post@.vesting_accounts.contains_key(k) implies
        wf_vesting_entry(post@, k, post@.vesting_accounts[k]) by {
        if k == key {
        } else {
            assert(pre@.vesting_accounts.contains_key(k));
            assert(wf_vesting_entry(pre@, k, pre@.vesting_accounts[k]));
            let v = pre@.vesting_accounts[k];
            assert(v.treasury_token_account != tkey);
        }
    }
    assert(post@.employee_accounts == pre@.employee_accounts);
    assert forall|k: AddressView| #[trigger] post@.employee_accounts.contains_key(k) implies
        wf_employee_entry(k, post@.employee_accounts[k]) by {
        assert(pre@.employee_accounts.contains_key(k));
    }
    assert forall|name: Seq<u8>| #[trigger] post@.token_accounts.contains_key(
        AddressView::Treasury(name),
    ) implies post@.vesting_accounts.contains_key(AddressView::Vesting(name)) by {
        if AddressView::Treasury(name) != tkey {
            assert(pre@.token_accounts.contains_key(AddressView::Treasury(name)));
        }
    }
    assert forall|o: u64, m: u64| #[trigger] post@.token_accounts.contains_key(
        AddressView::AssociatedToken(o, m),
    ) implies {
        &&& post@.token_accounts[AddressView::AssociatedToken(o, m)].mint == m
        &&& post@.token_accounts[AddressView::AssociatedToken(o, m)].authority
            == AddressView::Wallet(o)
    } by {
        assert(pre@.token_accounts.contains_key(AddressView::AssociatedToken(o, m)));
    }
}

} // verus!
