use vstd::prelude::*;

verus! {

/// The mathematical identity of an account: which namespace it lives in and
/// the seed values it was derived from.
///
/// Derivation is deterministic and collision-resistant by construction: two
/// addresses are equal exactly when they were derived in the same namespace
/// from the same seeds. Wallets are identities that exist outside the
/// engine (signers, beneficiaries, token mints); the other variants are the
/// records the engine itself derives.
pub enum AddressView {
    /// An externally owned identity, outside any derivation namespace.
    Wallet(u64),
    /// The vesting account of the company with this name.
    Vesting(Seq<u8>),
    /// The treasury token account backing the company with this name.
    Treasury(Seq<u8>),
    /// The employee account of a beneficiary under the named company.
    Employee(u64, Seq<u8>),
    /// The receiving token account of a wallet for a given mint.
    AssociatedToken(u64, u64),
}

/// An account address: a deterministic function of the seeds that own the
/// record stored under it.
///
/// The engine never trusts an address handed in by a caller: every
/// operation re-derives the addresses it touches from the request's seeds
/// and compares them against what is on record.
#[derive(Debug, PartialEq, Eq, Hash)]
pub enum Address {
    Wallet(u64),
    Vesting(Vec<u8>),
    Treasury(Vec<u8>),
    Employee(u64, Vec<u8>),
    AssociatedToken(u64, u64),
}

impl View for Address {
    type V = AddressView;

    open spec fn view(&self) -> AddressView {
        match self {
            Address::Wallet(k) => AddressView::Wallet(*k),
            Address::Vesting(name) => AddressView::Vesting(name@),
            Address::Treasury(name) => AddressView::Treasury(name@),
            Address::Employee(b, name) => AddressView::Employee(*b, name@),
            Address::AssociatedToken(o, m) => AddressView::AssociatedToken(*o, *m),
        }
    }
}

/// Copies a byte string.
pub fn bytes_clone(v: &Vec<u8>) -> (r: Vec<u8>)
    ensures
        r@ == v@,
{
    let mut r: Vec<u8> = Vec::new();
    let mut i: usize = 0;
    while i < v.len()
        invariant
            i <= v@.len(),
            r@ == v@.take(i as int),
        decreases v@.len() - i,
    {
        r.push(v[i]);
        proof {
            assert(r@ =~= v@.take(i as int + 1));
        }
        i = i + 1;
    }
    proof {
        assert(r@ =~= v@);
    }
    r
}

/// Decides equality of two byte strings.
pub fn bytes_eq(a: &Vec<u8>, b: &Vec<u8>) -> (r: bool)
    ensures
        r == (a@ == b@),
{
    if a.len() != b.len() {
        return false;
    }
    let mut i: usize = 0;
    while i < a.len()
        invariant
            i <= a@.len(),
            a@.len() == b@.len(),
            forall|j: int| 0 <= j < i ==> a@[j] == b@[j],
        decreases a@.len() - i,
    {
        if a[i] != b[i] {
            return false;
        }
        i = i + 1;
    }
    proof {
        assert(a@ =~= b@);
    }
    true
}

impl Clone for Address {
    /// Copies an address; the copy denotes the same identity.
    fn clone(&self) -> (r: Self)
        ensures
            r@ == self@,
    {
        match self {
            Address::Wallet(k) => Address::Wallet(*k),
            Address::Vesting(name) => Address::Vesting(bytes_clone(name)),
            Address::Treasury(name) => Address::Treasury(bytes_clone(name)),
            Address::Employee(b, name) => Address::Employee(*b, bytes_clone(name)),
            Address::AssociatedToken(o, m) => Address::AssociatedToken(*o, *m),
        }
    }
}

/// Decides whether two addresses denote the same identity.
pub fn addr_eq(a: &Address, b: &Address) -> (r: bool)
    ensures
        r == (a@ == b@),
{
    match (a, b) {
        (Address::Wallet(x), Address::Wallet(y)) => x == y,
        (Address::Vesting(m), Address::Vesting(n)) => bytes_eq(m, n),
        (Address::Treasury(m), Address::Treasury(n)) => bytes_eq(m, n),
        (Address::Employee(xb, m), Address::Employee(yb, n)) => xb == yb && bytes_eq(m, n),
        (Address::AssociatedToken(xo, xm), Address::AssociatedToken(yo, ym)) => xo == yo && xm
            == ym,
        _ => false,
    }
}

/// Derives the address of the vesting account for a company name.
pub fn vesting_account_address(company_name: &Vec<u8>) -> (a: Address)
    ensures
        a@ == AddressView::Vesting(company_name@),
{
    Address::Vesting(bytes_clone(company_name))
}

/// Derives the address of the treasury token account for a company name.
pub fn treasury_address(company_name: &Vec<u8>) -> (a: Address)
    ensures
        a@ == AddressView::Treasury(company_name@),
{
    Address::Treasury(bytes_clone(company_name))
}

/// Derives the address of the employee account of a beneficiary under a
/// company name.
pub fn employee_account_address(beneficiary: u64, company_name: &Vec<u8>) -> (a: Address)
    ensures
        a@ == AddressView::Employee(beneficiary, company_name@),
{
    Address::Employee(beneficiary, bytes_clone(company_name))
}

/// Derives the address of the receiving token account of a wallet for a
/// mint.
pub fn associated_token_address(wallet: u64, mint: u64) -> (a: Address)
    ensures
        a@ == AddressView::AssociatedToken(wallet, mint),
{
    Address::AssociatedToken(wallet, mint)
}

/// The byte strings folded into a salt: the running sum of the bytes,
/// reduced modulo 256.
pub open spec fn byte_sum(s: Seq<u8>) -> u8
    decreases s.len(),
{
    if s.len() == 0 {
        0u8
    } else {
        ((byte_sum(s.drop_last()) as int + s.last() as int) % 256) as u8
    }
}

/// The derivation salt recorded beside a derived address. It is a pure
/// function of the address, so an authority over the record can always be
/// re-derived from the seeds instead of being trusted from storage; each
/// namespace offsets the fold so that related records carry distinct salts.
pub open spec fn salt_of(a: AddressView) -> u8 {
    match a {
        AddressView::Wallet(k) => (k % 256) as u8,
        AddressView::Vesting(name) => byte_sum(name),
        AddressView::Treasury(name) => ((byte_sum(name) as int + 1) % 256) as u8,
        AddressView::Employee(b, name) => (((b % 256) as int + byte_sum(name) as int + 2)
            % 256) as u8,
        AddressView::AssociatedToken(o, m) => (((o % 256) as int + (m % 256) as int + 3)
            % 256) as u8,
    }
}

/// Folds a byte string into its salt contribution.
fn byte_sum_exec(s: &Vec<u8>) -> (r: u8)
    ensures
        r == byte_sum(s@),
{
    let mut acc: u8 = 0;
    let mut i: usize = 0;
    while i < s.len()
        invariant
            i <= s@.len(),
            acc == byte_sum(s@.take(i as int)),
        decreases s@.len() - i,
    {
        proof {
            assert(s@.take(i as int + 1).drop_last() =~= s@.take(i as int));
            assert(s@.take(i as int + 1).last() == s@[i as int]);
        }
        acc = (((acc as u16) + (s[i] as u16)) % 256) as u8;
        i = i + 1;
    }
    proof {
        assert(s@.take(s@.len() as int) =~= s@);
    }
    acc
}

/// Computes the salt of an address.
pub fn compute_salt(a: &Address) -> (r: u8)
    ensures
        r == salt_of(a@),
{
    match a {
        Address::Wallet(k) => (*k % 256) as u8,
        Address::Vesting(name) => byte_sum_exec(name),
        Address::Treasury(name) => (((byte_sum_exec(name) as u16) + 1) % 256) as u8,
        Address::Employee(b, name) => ((((*b % 256) as u16) + (byte_sum_exec(name) as u16) + 2)
            % 256) as u8,
        Address::AssociatedToken(o, m) => ((((*o % 256) as u16) + ((*m % 256) as u16) + 3)
            % 256) as u8,
    }
}

} // verus!
