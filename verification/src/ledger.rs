//! A deterministic model of the token-ledger service.
//!
//! The processor drives the external ledger through five primitive
//! operations: create an account, initialize a mint, initialize a holder
//! account, mint supply into a holder account, and clear a mint authority.
//! `Ledger` gives those operations an exact, verified meaning over in-memory
//! state, so the orchestration above it can be proved and tested against a
//! deterministic collaborator; production wiring substitutes the live
//! dispatcher behind the same operations.

use vstd::prelude::*;

use crate::identity::Identity;
use crate::state::LaunchError;

verus! {

/// A storage allocation known to the ledger.
#[derive(Clone, Copy, Debug)]
pub struct AccountRecord {
    /// Address of the allocated account.
    pub address: Identity,
    /// The identity that funded the allocation.
    pub funder: Identity,
    /// The service that owns the account's storage.
    pub owning_service: Identity,
    /// Allocated size in bytes.
    pub size: u64,
}

/// A mint known to the ledger.
#[derive(Clone, Copy, Debug)]
pub struct MintEntry {
    /// Address of the mint account.
    pub address: Identity,
    /// Number of decimals the mint was initialized with.
    pub decimals: u8,
    /// Total supply minted so far.
    pub supply: u64,
    /// The authority allowed to mint further supply, if any is left.
    pub authority: Option<Identity>,
}

/// A holder account known to the ledger.
#[derive(Clone, Copy, Debug)]
pub struct HolderEntry {
    /// Address of the holder account.
    pub address: Identity,
    /// The mint whose balance this account tracks.
    pub mint: Identity,
    /// The owner of the balance.
    pub owner: Identity,
    /// The balance.
    pub amount: u64,
}

/// An immutable record written by the processor's own authority domain.
#[derive(Clone, Debug)]
pub struct RecordEntry {
    /// The derived address the record was written at.
    pub address: Identity,
    /// The record's bytes.
    pub data: Vec<u8>,
}

/// The ledger model: every allocation, mint, holder account and launch
/// record created so far.
#[derive(Debug)]
pub struct Ledger {
    pub accounts: Vec<AccountRecord>,
    pub mints: Vec<MintEntry>,
    pub holders: Vec<HolderEntry>,
    pub records: Vec<RecordEntry>,
}

// ---------------------------------------------------------------------------
// First-match address lookup.
// ---------------------------------------------------------------------------

/// Index of the first occurrence of `a` in `addrs`, or `-1`.
pub open spec fn addr_index(addrs: Seq<Seq<u8>>, a: Seq<u8>) -> int
    decreases addrs.len(),
{
    if addrs.len() == 0 {
        -1
    } else if addrs[0] == a {
        0
    } else {
        let rest = addr_index(addrs.skip(1), a);
        if rest == -1 {
            -1
        } else {
            rest + 1
        }
    }
}

/// What `addr_index` returns: a first match, or `-1` when nothing matches.
pub proof fn lemma_addr_index_spec(addrs: Seq<Seq<u8>>, a: Seq<u8>)
    ensures
        -1 <= addr_index(addrs, a) < addrs.len(),
        addr_index(addrs, a) >= 0 ==> addrs[addr_index(addrs, a)] == a,
        addr_index(addrs, a) >= 0 ==> forall|j: int|
            0 <= j < addr_index(addrs, a) ==> addrs[j] != a,
        addr_index(addrs, a) == -1 ==> forall|j: int| 0 <= j < addrs.len() ==> addrs[j] != a,
    decreases addrs.len(),
{
    if addrs.len() > 0 && addrs[0] != a {
        lemma_addr_index_spec(addrs.skip(1), a);
        assert(forall|j: int| 1 <= j < addrs.len() ==> addrs[j] == addrs.skip(1)[j - 1]);
    }
}

/// A first match pins the index down.
pub proof fn lemma_addr_index_determined(addrs: Seq<Seq<u8>>, a: Seq<u8>, k: int)
    requires
        0 <= k < addrs.len(),
        addrs[k] == a,
        forall|j: int| 0 <= j < k ==> addrs[j] != a,
    ensures
        addr_index(addrs, a) == k,
    decreases k,
{
    if k > 0 {
        assert(forall|j: int| 1 <= j < addrs.len() ==> addrs[j] == addrs.skip(1)[j - 1]);
        assert(forall|j: int| 0 <= j < k - 1 ==> addrs.skip(1)[j] == addrs[j + 1]);
        lemma_addr_index_determined(addrs.skip(1), a, k - 1);
    }
}

/// No match at all pins the index to `-1`.
pub proof fn lemma_addr_index_none(addrs: Seq<Seq<u8>>, a: Seq<u8>)
    requires
        forall|j: int| 0 <= j < addrs.len() ==> addrs[j] != a,
    ensures
        addr_index(addrs, a) == -1,
    decreases addrs.len(),
{
    if addrs.len() > 0 {
        assert(forall|j: int| 0 <= j < addrs.len() - 1 ==> addrs.skip(1)[j] == addrs[j + 1]);
        lemma_addr_index_none(addrs.skip(1), a);
    }
}

/// The addresses of a sequence of allocations.
pub open spec fn account_addresses(s: Seq<AccountRecord>) -> Seq<Seq<u8>> {
    s.map_values(|e: AccountRecord| e.address@)
}

/// The addresses of a sequence of mints.
pub open spec fn mint_addresses(s: Seq<MintEntry>) -> Seq<Seq<u8>> {
    s.map_values(|e: MintEntry| e.address@)
}

/// The addresses of a sequence of holder accounts.
pub open spec fn holder_addresses(s: Seq<HolderEntry>) -> Seq<Seq<u8>> {
    s.map_values(|e: HolderEntry| e.address@)
}

/// The addresses of a sequence of records.
pub open spec fn record_addresses(s: Seq<RecordEntry>) -> Seq<Seq<u8>> {
    s.map_values(|e: RecordEntry| e.address@)
}

/// Whether an account is allocated at `a`.
pub open spec fn spec_has_account(s: Seq<AccountRecord>, a: Seq<u8>) -> bool {
    addr_index(account_addresses(s), a) >= 0
}

/// Index of the mint at `a`, or `-1`.
pub open spec fn spec_mint_index(s: Seq<MintEntry>, a: Seq<u8>) -> int {
    addr_index(mint_addresses(s), a)
}

/// Index of the holder account at `a`, or `-1`.
pub open spec fn spec_holder_index(s: Seq<HolderEntry>, a: Seq<u8>) -> int {
    addr_index(holder_addresses(s), a)
}

/// Index of the record at `a`, or `-1`.
pub open spec fn spec_record_index(s: Seq<RecordEntry>, a: Seq<u8>) -> int {
    addr_index(record_addresses(s), a)
}

impl Ledger {
    /// An empty ledger.
    pub fn new() -> (r: Ledger)
        ensures
            r.accounts@ =~= Seq::<AccountRecord>::empty(),
            r.mints@ =~= Seq::<MintEntry>::empty(),
            r.holders@ =~= Seq::<HolderEntry>::empty(),
            r.records@ =~= Seq::<RecordEntry>::empty(),
    {
        Ledger { accounts: Vec::new(), mints: Vec::new(), holders: Vec::new(), records: Vec::new() }
    }

    /// Position of the allocation at `address`, if any.
    fn account_position(&self, address: &Identity) -> (r: Option<usize>)
        ensures
            match r {
                Some(k) => addr_index(account_addresses(self.accounts@), address@) == k,
                None => addr_index(account_addresses(self.accounts@), address@) == -1,
            },
    {
        let ghost addrs = account_addresses(self.accounts@);
        let mut k: usize = 0;
        while k < self.accounts.len()
            invariant
                0 <= k <= self.accounts@.len(),
                addrs == account_addresses(self.accounts@),
                forall|j: int| 0 <= j < k ==> addrs[j] != address@,
            decreases self.accounts@.len() - k,
        {
            if self.accounts[k].address == *address {
                proof {
                    lemma_addr_index_determined(addrs, address@, k as int);
                }
                return Some(k);
            }
            k += 1;
        }
        proof {
            lemma_addr_index_none(addrs, address@);
        }
        None
    }

    /// Position of the mint at `address`, if any.
    fn mint_position(&self, address: &Identity) -> (r: Option<usize>)
        ensures
            match r {
                Some(k) => spec_mint_index(self.mints@, address@) == k,
                None => spec_mint_index(self.mints@, address@) == -1,
            },
    {
        let ghost addrs = mint_addresses(self.mints@);
        let mut k: usize = 0;
        while k < self.mints.len()
            invariant
                0 <= k <= self.mints@.len(),
                addrs == mint_addresses(self.mints@),
                forall|j: int| 0 <= j < k ==> addrs[j] != address@,
            decreases self.mints@.len() - k,
        {
            if self.mints[k].address == *address {
                proof {
                    lemma_addr_index_determined(addrs, address@, k as int);
                }
                return Some(k);
            }
            k += 1;
        }
        proof {
            lemma_addr_index_none(addrs, address@);
        }
        None
    }

    /// Position of the holder account at `address`, if any.
    fn holder_position(&self, address: &Identity) -> (r: Option<usize>)
        ensures
            match r {
                Some(k) => spec_holder_index(self.holders@, address@) == k,
                None => spec_holder_index(self.holders@, address@) == -1,
            },
    {
        let ghost addrs = holder_addresses(self.holders@);
        let mut k: usize = 0;
        while k < self.holders.len()
            invariant
                0 <= k <= self.holders@.len(),
                addrs == holder_addresses(self.holders@),
                forall|j: int| 0 <= j < k ==> addrs[j] != address@,
            decreases self.holders@.len() - k,
        {
            if self.holders[k].address == *address {
                proof {
                    lemma_addr_index_determined(addrs, address@, k as int);
                }
                return Some(k);
            }
            k += 1;
        }
        proof {
            lemma_addr_index_none(addrs, address@);
        }
        None
    }

    /// Position of the record at `address`, if any.
    fn record_position(&self, address: &Identity) -> (r: Option<usize>)
        ensures
            match r {
                Some(k) => spec_record_index(self.records@, address@) == k,
                None => spec_record_index(self.records@, address@) == -1,
            },
    {
        let ghost addrs = record_addresses(self.records@);
        let mut k: usize = 0;
        while k < self.records.len()
            invariant
                0 <= k <= self.records@.len(),
                addrs == record_addresses(self.records@),
                forall|j: int| 0 <= j < k ==> addrs[j] != address@,
            decreases self.records@.len() - k,
        {
            if self.records[k].address == *address {
                proof {
                    lemma_addr_index_determined(addrs, address@, k as int);
                }
                return Some(k);
            }
            k += 1;
        }
        proof {
            lemma_addr_index_none(addrs, address@);
        }
        None
    }

    /// Whether an account is allocated at `address`.
    pub fn is_allocated(&self, address: &Identity) -> (r: bool)
        ensures
            r == spec_has_account(self.accounts@, address@),
    {
        let r = self.account_position(address);
        r.is_some()
    }

    /// The mint at `address`, if any.
    pub fn get_mint(&self, address: &Identity) -> (r: Option<MintEntry>)
        ensures
            match r {
                Some(m) => spec_mint_index(self.mints@, address@) >= 0 && m == self.mints@[
                    spec_mint_index(self.mints@, address@)
                ],
                None => spec_mint_index(self.mints@, address@) == -1,
            },
    {
        match self.mint_position(address) {
            Some(k) => {
                proof {
                    lemma_addr_index_spec(mint_addresses(self.mints@), address@);
                }
                Some(self.mints[k])
            },
            None => None,
        }
    }

    /// The holder account at `address`, if any.
    pub fn get_holder(&self, address: &Identity) -> (r: Option<HolderEntry>)
        ensures
            match r {
                Some(h) => spec_holder_index(self.holders@, address@) >= 0 && h == self.holders@[
                    spec_holder_index(self.holders@, address@)
                ],
                None => spec_holder_index(self.holders@, address@) == -1,
            },
    {
        match self.holder_position(address) {
            Some(k) => {
                proof {
                    lemma_addr_index_spec(holder_addresses(self.holders@), address@);
                }
                Some(self.holders[k])
            },
            None => None,
        }
    }

    /// The bytes of the record at `address`, if any.
    pub fn get_record_data(&self, address: &Identity) -> (r: Option<&Vec<u8>>)
        ensures
            match r {
                Some(d) => spec_record_index(self.records@, address@) >= 0 && d@ == self.records@[
                    spec_record_index(self.records@, address@)
                ].data@,
                None => spec_record_index(self.records@, address@) == -1,
            },
    {
        match self.record_position(address) {
            Some(k) => {
                proof {
                    lemma_addr_index_spec(record_addresses(self.records@), address@);
                }
                Some(&self.records[k].data)
            },
            None => None,
        }
    }

    /// Allocate a fresh account of `size` bytes at `new_account`, funded by
    /// `funder` and owned by `owning_service`.
    ///
    /// Fails, leaving the ledger unchanged, exactly when the address is
    /// already occupied.
    pub fn create_account(
        &mut self,
        funder: &Identity,
        new_account: &Identity,
        size: u64,
        owning_service: &Identity,
    ) -> (r: Result<(), LaunchError>)
        ensures
            r is Ok <==> !spec_has_account(old(self).accounts@, new_account@),
            r is Err ==> *final(self) == *old(self) && r == Err::<(), LaunchError>(
                LaunchError::ExternalCallFailed,
            ),
            r is Ok ==> {
                &&& final(self).accounts@.len() == old(self).accounts@.len() + 1
                &&& final(self).accounts@.drop_last() =~= old(self).accounts@
                &&& final(self).accounts@.last().address@ == new_account@
                &&& final(self).accounts@.last().funder@ == funder@
                &&& final(self).accounts@.last().owning_service@ == owning_service@
                &&& final(self).accounts@.last().size == size
                &&& final(self).mints@ == old(self).mints@
                &&& final(self).holders@ == old(self).holders@
                &&& final(self).records@ == old(self).records@
            },
    {
        if self.account_position(new_account).is_some() {
            proof {
                lemma_addr_index_spec(account_addresses(self.accounts@), new_account@);
            }
            return Err(LaunchError::ExternalCallFailed);
        }
        let entry = AccountRecord {
            address: *new_account,
            funder: *funder,
            owning_service: *owning_service,
            size,
        };
        self.accounts.push(entry);
        proof {
            assert(final(self).accounts@.drop_last() =~= old(self).accounts@);
        }
        Ok(())
    }

    /// Initialize the allocated account at `mint` as a mint with the given
    /// authority and decimals.
    ///
    /// Fails, leaving the ledger unchanged, exactly when no account is
    /// allocated there or a mint already sits there.
    pub fn initialize_mint(&mut self, mint: &Identity, authority: &Identity, decimals: u8) -> (r:
        Result<(), LaunchError>)
        ensures
            r is Ok <==> spec_has_account(old(self).accounts@, mint@) && spec_mint_index(
                old(self).mints@,
                mint@,
            ) == -1,
            r is Err ==> *final(self) == *old(self) && r == Err::<(), LaunchError>(
                LaunchError::ExternalCallFailed,
            ),
            r is Ok ==> {
                &&& final(self).mints@.len() == old(self).mints@.len() + 1
                &&& final(self).mints@.drop_last() =~= old(self).mints@
                &&& final(self).mints@.last().address@ == mint@
                &&& final(self).mints@.last().decimals == decimals
                &&& final(self).mints@.last().supply == 0u64
                &&& final(self).mints@.last().authority matches Some(a) && a@ == authority@
                &&& final(self).accounts@ == old(self).accounts@
                &&& final(self).holders@ == old(self).holders@
                &&& final(self).records@ == old(self).records@
            },
    {
        if self.account_position(mint).is_none() {
            return Err(LaunchError::ExternalCallFailed);
        }
        if self.mint_position(mint).is_some() {
            return Err(LaunchError::ExternalCallFailed);
        }
        let entry = MintEntry {
            address: *mint,
            decimals,
            supply: 0,
            authority: Some(*authority),
        };
        self.mints.push(entry);
        proof {
            assert(final(self).mints@.drop_last() =~= old(self).mints@);
        }
        Ok(())
    }

    /// Initialize the allocated account at `account` as a holder account of
    /// `mint`, owned by `owner`, with balance zero.
    ///
    /// Fails, leaving the ledger unchanged, exactly when no account is
    /// allocated there, a holder account already sits there, or the mint
    /// does not exist.
    pub fn initialize_holder_account(
        &mut self,
        account: &Identity,
        mint: &Identity,
        owner: &Identity,
    ) -> (r: Result<(), LaunchError>)
        ensures
            r is Ok <==> spec_has_account(old(self).accounts@, account@) && spec_holder_index(
                old(self).holders@,
                account@,
            ) == -1 && spec_mint_index(old(self).mints@, mint@) >= 0,
            r is Err ==> *final(self) == *old(self) && r == Err::<(), LaunchError>(
                LaunchError::ExternalCallFailed,
            ),
            r is Ok ==> {
                &&& final(self).holders@.len() == old(self).holders@.len() + 1
                &&& final(self).holders@.drop_last() =~= old(self).holders@
                &&& final(self).holders@.last().address@ == account@
                &&& final(self).holders@.last().mint@ == mint@
                &&& final(self).holders@.last().owner@ == owner@
                &&& final(self).holders@.last().amount == 0u64
                &&& final(self).accounts@ == old(self).accounts@
                &&& final(self).mints@ == old(self).mints@
                &&& final(self).records@ == old(self).records@
            },
    {
        if self.account_position(account).is_none() {
            return Err(LaunchError::ExternalCallFailed);
        }
        if self.holder_position(account).is_some() {
            return Err(LaunchError::ExternalCallFailed);
        }
        if self.mint_position(mint).is_none() {
            return Err(LaunchError::ExternalCallFailed);
        }
        let entry = HolderEntry { address: *account, mint: *mint, owner: *owner, amount: 0 };
        self.holders.push(entry);
        proof {
            assert(final(self).holders@.drop_last() =~= old(self).holders@);
        }
        Ok(())
    }

    /// Mint `amount` units of `mint` into the holder account at `account`,
    /// authorized by `authority`.
    ///
    /// Fails, leaving the ledger unchanged, exactly when the mint does not
    /// exist, its remaining authority is not `authority`, the holder account
    /// does not exist or belongs to another mint, or a balance would
    /// overflow. Once the mint's authority is cleared, every call fails.
    pub fn mint_to(
        &mut self,
        mint: &Identity,
        account: &Identity,
        authority: &Identity,
        amount: u64,
    ) -> (r: Result<(), LaunchError>)
        ensures
            r is Ok <==> spec_mint_to_allowed(
                old(self).mints@,
                old(self).holders@,
                mint@,
                account@,
                authority@,
                amount,
            ),
            r is Err ==> *final(self) == *old(self) && r == Err::<(), LaunchError>(
                LaunchError::ExternalCallFailed,
            ),
            r is Ok ==> {
                let mi = spec_mint_index(old(self).mints@, mint@);
                let hi = spec_holder_index(old(self).holders@, account@);
                &&& final(self).mints@ =~= old(self).mints@.update(
                    mi,
                    (MintEntry {
                        supply: (old(self).mints@[mi].supply + amount) as u64,
                        ..old(self).mints@[mi]
                    }),
                )
                &&& final(self).holders@ =~= old(self).holders@.update(
                    hi,
                    (HolderEntry {
                        amount: (old(self).holders@[hi].amount + amount) as u64,
                        ..old(self).holders@[hi]
                    }),
                )
                &&& final(self).accounts@ == old(self).accounts@
                &&& final(self).records@ == old(self).records@
            },
    {
        let mi = match self.mint_position(mint) {
            Some(k) => k,
            None => {
                return Err(LaunchError::ExternalCallFailed);
            },
        };
        proof {
            lemma_addr_index_spec(mint_addresses(self.mints@), mint@);
        }
        let authorized = match self.mints[mi].authority {
            Some(a) => a == *authority,
            None => false,
        };
        if !authorized {
            return Err(LaunchError::ExternalCallFailed);
        }
        let hi = match self.holder_position(account) {
            Some(k) => k,
            None => {
                return Err(LaunchError::ExternalCallFailed);
            },
        };
        proof {
            lemma_addr_index_spec(holder_addresses(self.holders@), account@);
        }
        if !(self.holders[hi].mint == *mint) {
            return Err(LaunchError::ExternalCallFailed);
        }
        if amount > u64::MAX - self.mints[mi].supply {
            return Err(LaunchError::ExternalCallFailed);
        }
        if amount > u64::MAX - self.holders[hi].amount {
            return Err(LaunchError::ExternalCallFailed);
        }
        let mut mint_entry = self.mints[mi];
        mint_entry.supply = mint_entry.supply + amount;
        self.mints.set(mi, mint_entry);
        let mut holder_entry = self.holders[hi];
        holder_entry.amount = holder_entry.amount + amount;
        self.holders.set(hi, holder_entry);
        Ok(())
    }

    /// Clear the mint authority of `mint`, irreversibly.
    ///
    /// Fails, leaving the ledger unchanged, exactly when the mint does not
    /// exist or its remaining authority is not `authority`.
    pub fn clear_mint_authority(&mut self, mint: &Identity, authority: &Identity) -> (r: Result<
        (),
        LaunchError,
    >)
        ensures
            r is Ok <==> ({
                let mi = spec_mint_index(old(self).mints@, mint@);
                &&& mi >= 0
                &&& old(self).mints@[mi].authority matches Some(a) && a@ == authority@
            }),
            r is Err ==> *final(self) == *old(self) && r == Err::<(), LaunchError>(
                LaunchError::ExternalCallFailed,
            ),
            r is Ok ==> {
                let mi = spec_mint_index(old(self).mints@, mint@);
                &&& final(self).mints@ =~= old(self).mints@.update(
                    mi,
                    (MintEntry { authority: None, ..old(self).mints@[mi] }),
                )
                &&& final(self).accounts@ == old(self).accounts@
                &&& final(self).holders@ == old(self).holders@
                &&& final(self).records@ == old(self).records@
            },
    {
        let mi = match self.mint_position(mint) {
            Some(k) => k,
            None => {
                return Err(LaunchError::ExternalCallFailed);
            },
        };
        proof {
            lemma_addr_index_spec(mint_addresses(self.mints@), mint@);
        }
        let authorized = match self.mints[mi].authority {
            Some(a) => a == *authority,
            None => false,
        };
        if !authorized {
            return Err(LaunchError::ExternalCallFailed);
        }
        let mut mint_entry = self.mints[mi];
        mint_entry.authority = None;
        self.mints.set(mi, mint_entry);
        Ok(())
    }

    /// Write an immutable launch record at `address`.
    ///
    /// Fails, leaving the ledger unchanged, exactly when a record already
    /// sits there: records are append-only and never overwritten.
    pub fn write_record(&mut self, address: &Identity, data: Vec<u8>) -> (r: Result<
        (),
        LaunchError,
    >)
        ensures
            r is Ok <==> spec_record_index(old(self).records@, address@) == -1,
            r is Err ==> *final(self) == *old(self) && r == Err::<(), LaunchError>(
                LaunchError::ExternalCallFailed,
            ),
            r is Ok ==> {
                &&& final(self).records@.len() == old(self).records@.len() + 1
                &&& final(self).records@.drop_last() =~= old(self).records@
                &&& final(self).records@.last().address@ == address@
                &&& final(self).records@.last().data@ == data@
                &&& final(self).accounts@ == old(self).accounts@
                &&& final(self).mints@ == old(self).mints@
                &&& final(self).holders@ == old(self).holders@
            },
    {
        if self.record_position(address).is_some() {
            return Err(LaunchError::ExternalCallFailed);
        }
        let entry = RecordEntry { address: *address, data };
        self.records.push(entry);
        proof {
            assert(final(self).records@.drop_last() =~= old(self).records@);
        }
        Ok(())
    }
}

/// The shape of one allocation entry.
pub open spec fn account_rec_is(
    e: AccountRecord,
    address: Seq<u8>,
    funder: Seq<u8>,
    owning_service: Seq<u8>,
    size: u64,
) -> bool {
    &&& e.address@ == address
    &&& e.funder@ == funder
    &&& e.owning_service@ == owning_service
    &&& e.size == size
}

/// The shape of one mint entry.
pub open spec fn mint_entry_is(
    e: MintEntry,
    address: Seq<u8>,
    decimals: u8,
    supply: u64,
    authority: Option<Seq<u8>>,
) -> bool {
    &&& e.address@ == address
    &&& e.decimals == decimals
    &&& e.supply == supply
    &&& match (e.authority, authority) {
        (Some(a), Some(b)) => a@ == b,
        (None, None) => true,
        _ => false,
    }
}

/// The shape of one holder entry.
pub open spec fn holder_entry_is(
    e: HolderEntry,
    address: Seq<u8>,
    mint: Seq<u8>,
    owner: Seq<u8>,
    amount: u64,
) -> bool {
    &&& e.address@ == address
    &&& e.mint@ == mint
    &&& e.owner@ == owner
    &&& e.amount == amount
}

/// Whether a `mint_to` call is allowed: the mint exists, its remaining
/// authority is the caller, the holder account exists and belongs to the
/// mint, and neither balance overflows.
pub open spec fn spec_mint_to_allowed(
    mints: Seq<MintEntry>,
    holders: Seq<HolderEntry>,
    mint: Seq<u8>,
    account: Seq<u8>,
    authority: Seq<u8>,
    amount: u64,
) -> bool {
    let mi = spec_mint_index(mints, mint);
    let hi = spec_holder_index(holders, account);
    &&& mi >= 0
    &&& mints[mi].authority matches Some(a) && a@ == authority
    &&& hi >= 0
    &&& holders[hi].mint@ == mint
    &&& mints[mi].supply + amount <= u64::MAX
    &&& holders[hi].amount + amount <= u64::MAX
}

} // verus!
