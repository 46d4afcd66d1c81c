//! The record store: balances and fixed-layout records behind addresses.

use crate::address::Address;
use crate::error::Error;
use anchor_lang::prelude::Rent;
use vstd::prelude::*;

verus! {

/// Length of the layout tag that every record begins with.
pub const TAG_LEN: usize = 8;

/// Largest size of a record, tag included.
pub const MAX_RECORD_SIZE: usize = 10_485_760;

/// Bytes charged for every record on top of its size.
pub const STORAGE_OVERHEAD: u64 = 128;

/// Largest yearly price of a record for which the maintenance balance is
/// exactly twice the price.
pub const MAX_YEARLY_PRICE: u64 = 0x20_0000_0000_0000;

/// A record: who may change it, who may close it, and its bytes, which begin
/// with the layout tag.
pub struct Record {
    pub owner: Address,
    pub authority: Address,
    pub data: Vec<u8>,
}

/// A record as plain values.
pub struct RecordView {
    pub owner: Seq<u8>,
    pub authority: Seq<u8>,
    pub data: Seq<u8>,
}

impl View for Record {
    type V = RecordView;

    open spec fn view(&self) -> RecordView {
        RecordView { owner: self.owner@, authority: self.authority@, data: self.data@ }
    }
}

/// An entry of the table: an address, its balance and, possibly, its record.
struct Account {
    address: Address,
    lamports: u64,
    record: Option<Record>,
}

/// What an address holds, as plain values.
pub struct AccountView {
    pub lamports: nat,
    pub record: Option<RecordView>,
}

impl View for Account {
    type V = AccountView;

    closed spec fn view(&self) -> AccountView {
        AccountView {
            lamports: self.lamports as nat,
            record: match self.record {
                Some(r) => Some(r@),
                None => None,
            },
        }
    }
}

/// What an address holds that was never paid to: nothing.
pub open spec fn vacant() -> AccountView {
    AccountView { lamports: 0, record: None }
}

/// The state of a ledger: what every address holds, the lamports in
/// circulation, and the yearly price of a byte.
pub struct LedgerView {
    pub accounts: Map<Seq<u8>, AccountView>,
    pub supply: nat,
    pub price: u64,
}

impl LedgerView {
    /// The lamports that `a` holds.
    pub open spec fn balance(self, a: Seq<u8>) -> nat {
        self.accounts[a].lamports
    }

    /// The record that occupies `a`, if one does.
    pub open spec fn record(self, a: Seq<u8>) -> Option<RecordView> {
        self.accounts[a].record
    }

    /// The state in which `a` holds `lamports` and all else is the same.
    pub open spec fn with_balance(self, a: Seq<u8>, lamports: nat) -> LedgerView {
        LedgerView {
            accounts: self.accounts.insert(a, AccountView { lamports, record: self.record(a) }),
            ..self
        }
    }

    /// The state in which `a` holds `record`, or no record, and all else is
    /// the same.
    pub open spec fn with_record(self, a: Seq<u8>, record: Option<RecordView>) -> LedgerView {
        LedgerView {
            accounts: self.accounts.insert(a, AccountView { lamports: self.balance(a), record }),
            ..self
        }
    }

    /// The state after `n` new lamports were paid to `a`.
    pub open spec fn minted(self, a: Seq<u8>, n: nat) -> LedgerView {
        LedgerView { supply: self.supply + n, ..self.with_balance(a, self.balance(a) + n) }
    }

    /// The state after `n` lamports went from `from` to `to`.
    pub open spec fn moved(self, from: Seq<u8>, to: Seq<u8>, n: nat) -> LedgerView
        recommends
            self.balance(from) >= n,
    {
        let debited = self.with_balance(from, (self.balance(from) - n) as nat);
        debited.with_balance(to, debited.balance(to) + n)
    }
}

/// Whether no two entries of the table share an address.
spec fn distinct(s: Seq<Account>) -> bool {
    forall|i: int, j: int| 0 <= i < j < s.len() ==> s[i].address@ != s[j].address@
}

/// What every address holds according to the table.
spec fn table(s: Seq<Account>) -> Map<Seq<u8>, AccountView>
    decreases s.len(),
{
    if s.len() == 0 {
        Map::total(|a: Seq<u8>| vacant())
    } else {
        table(s.drop_last()).insert(s.last().address@, s.last()@)
    }
}

/// The lamports that the entries of the table hold together.
spec fn total(s: Seq<Account>) -> nat
    decreases s.len(),
{
    if s.len() == 0 {
        0
    } else {
        total(s.drop_last()) + s.last().lamports as nat
    }
}

proof fn lemma_table_total_domain(s: Seq<Account>)
    ensures
        table(s).dom() == Set::<Seq<u8>>::full(),
    decreases s.len(),
{
    if s.len() == 0 {
        assert(table(s).dom() =~= Set::<Seq<u8>>::full());
    } else {
        lemma_table_total_domain(s.drop_last());
        assert(table(s).dom() =~= Set::<Seq<u8>>::full());
    }
}

proof fn lemma_table_absent(s: Seq<Account>, a: Seq<u8>)
    requires
        forall|i: int| 0 <= i < s.len() ==> s[i].address@ != a,
    ensures
        table(s)[a] == vacant(),
    decreases s.len(),
{
    if s.len() > 0 {
        lemma_table_absent(s.drop_last(), a);
    }
}

proof fn lemma_table_entry(s: Seq<Account>, a: Seq<u8>)
    ensures
        table(s)[a] == vacant() || exists|i: int| 0 <= i < s.len() && table(s)[a] == (#[trigger] s[i])@,
    decreases s.len(),
{
    if s.len() > 0 {
        lemma_table_entry(s.drop_last(), a);
        if s.last().address@ == a {
            assert(table(s)[a] == s[s.len() - 1]@);
        } else if table(s.drop_last())[a] != vacant() {
            let i = choose|i: int|
                0 <= i < s.drop_last().len() && table(s.drop_last())[a] == (#[trigger] s.drop_last()[i])@;
            assert(table(s)[a] == s[i]@);
        }
    }
}

proof fn lemma_table_at(s: Seq<Account>, i: int)
    requires
        distinct(s),
        0 <= i < s.len(),
    ensures
        table(s)[s[i].address@] == s[i]@,
    decreases s.len(),
{
    if i < s.len() - 1 {
        lemma_table_at(s.drop_last(), i);
    }
}

proof fn lemma_table_update(s: Seq<Account>, i: int, acc: Account)
    requires
        distinct(s),
        0 <= i < s.len(),
        acc.address@ == s[i].address@,
    ensures
        distinct(s.update(i, acc)),
        table(s.update(i, acc)) == table(s).insert(acc.address@, acc@),
    decreases s.len(),
{
    let t = s.update(i, acc);
    lemma_table_total_domain(t);
    lemma_table_total_domain(s);
    if i == s.len() - 1 {
        assert(t.drop_last() =~= s.drop_last());
        assert(table(t) =~= table(s).insert(acc.address@, acc@));
    } else {
        lemma_table_update(s.drop_last(), i, acc);
        assert(t.drop_last() =~= s.drop_last().update(i, acc));
        assert(s.last().address@ != acc.address@);
        assert(table(t) =~= table(s).insert(acc.address@, acc@));
    }
}

proof fn lemma_table_push(s: Seq<Account>, acc: Account)
    requires
        distinct(s),
        forall|i: int| 0 <= i < s.len() ==> s[i].address@ != acc.address@,
    ensures
        distinct(s.push(acc)),
        table(s.push(acc)) == table(s).insert(acc.address@, acc@),
        total(s.push(acc)) == total(s) + acc.lamports,
{
    assert(s.push(acc).drop_last() =~= s);
}

proof fn lemma_total_update(s: Seq<Account>, i: int, acc: Account)
    requires
        0 <= i < s.len(),
    ensures
        total(s.update(i, acc)) == total(s) - s[i].lamports + acc.lamports,
    decreases s.len(),
{
    let t = s.update(i, acc);
    if i == s.len() - 1 {
        assert(t.drop_last() =~= s.drop_last());
    } else {
        lemma_total_update(s.drop_last(), i, acc);
        assert(t.drop_last() =~= s.drop_last().update(i, acc));
    }
}

proof fn lemma_total_bound(s: Seq<Account>, i: int)
    requires
        0 <= i < s.len(),
    ensures
        s[i].lamports <= total(s),
    decreases s.len(),
{
    if i < s.len() - 1 {
        lemma_total_bound(s.drop_last(), i);
    }
}

proof fn lemma_total_bound_two(s: Seq<Account>, i: int, j: int)
    requires
        0 <= i < s.len(),
        0 <= j < s.len(),
        i != j,
    ensures
        s[i].lamports + s[j].lamports <= total(s),
{
    let zeroed = Account { lamports: 0, ..s[i] };
    lemma_total_update(s, i, zeroed);
    lemma_total_bound(s.update(i, zeroed), j);
}

/// `n` zero bytes.
pub open spec fn zeros(n: nat) -> Seq<u8> {
    Seq::new(n, |i: int| 0u8)
}

/// Whether the ledger can price a record of `size` bytes.
pub open spec fn priceable(price: u64, size: nat) -> bool {
    (STORAGE_OVERHEAD + size) * price <= MAX_YEARLY_PRICE
}

/// The balance that a record of `size` bytes must be backed with: two years
/// of the price of its bytes and the overhead.
pub open spec fn maintenance_balance(price: u64, size: nat) -> nat {
    (2 * ((STORAGE_OVERHEAD + size) * price)) as nat
}

/// The bytes of a new record: its tag, then zeros up to its size.
pub open spec fn blank(tag: Seq<u8>, size: nat) -> Seq<u8> {
    tag + zeros((size - TAG_LEN) as nat)
}

/// The bytes of a record after `payload` was written behind its tag.
pub open spec fn overwritten(data: Seq<u8>, payload: Seq<u8>) -> Seq<u8> {
    data.subrange(0, TAG_LEN as int) + payload + data.subrange(
        TAG_LEN + payload.len(),
        data.len() as int,
    )
}

/// Whether `principal` may take lamports from `from`: the owner of a record
/// may take from the record, a principal from what it holds itself.
pub open spec fn may_debit(state: LedgerView, from: Seq<u8>, principal: Seq<u8>) -> bool {
    match state.record(from) {
        Some(r) => r.owner == principal,
        None => from == principal,
    }
}

/// What `transfer` does to a ledger in `state`.
pub open spec fn transfer_outcome(
    state: LedgerView,
    from: Seq<u8>,
    to: Seq<u8>,
    n: nat,
    principal: Seq<u8>,
) -> Result<LedgerView, Error> {
    if !may_debit(state, from, principal) {
        Err(Error::Unauthorized)
    } else if state.balance(from) < n {
        Err(Error::InsufficientBalance)
    } else {
        Ok(state.moved(from, to, n))
    }
}

/// What `create` does to a ledger in `state`.
pub open spec fn create_outcome(
    state: LedgerView,
    address: Seq<u8>,
    owner: Seq<u8>,
    payer: Seq<u8>,
    size: nat,
    tag: Seq<u8>,
) -> Result<LedgerView, Error> {
    let cost = maintenance_balance(state.price, size);
    if state.record(address) is Some {
        Err(Error::AlreadyExists)
    } else if size < TAG_LEN || size > MAX_RECORD_SIZE || !priceable(state.price, size) {
        Err(Error::InvalidSize)
    } else if state.balance(payer) < cost {
        Err(Error::InsufficientBalance)
    } else {
        Ok(
            state.moved(payer, address, cost).with_record(
                address,
                Some(RecordView { owner, authority: payer, data: blank(tag, size) }),
            ),
        )
    }
}

/// What `read` returns on a ledger in `state`.
pub open spec fn read_outcome(state: LedgerView, address: Seq<u8>, tag: Seq<u8>) -> Result<
    Seq<u8>,
    Error,
> {
    match state.record(address) {
        None => Err(Error::NotFound),
        Some(r) => if r.data.subrange(0, TAG_LEN as int) != tag {
            Err(Error::LayoutMismatch)
        } else {
            Ok(r.data.subrange(TAG_LEN as int, r.data.len() as int))
        },
    }
}

/// What `write` does to a ledger in `state`.
pub open spec fn write_outcome(
    state: LedgerView,
    address: Seq<u8>,
    program: Seq<u8>,
    tag: Seq<u8>,
    payload: Seq<u8>,
) -> Result<LedgerView, Error> {
    match state.record(address) {
        None => Err(Error::NotFound),
        Some(r) => if r.data.subrange(0, TAG_LEN as int) != tag {
            Err(Error::LayoutMismatch)
        } else if r.owner != program {
            Err(Error::Unauthorized)
        } else if TAG_LEN + payload.len() > r.data.len() {
            Err(Error::InvalidSize)
        } else {
            Ok(
                state.with_record(
                    address,
                    Some(RecordView { data: overwritten(r.data, payload), ..r }),
                ),
            )
        },
    }
}

/// What `close` does to a ledger in `state`.
pub open spec fn close_outcome(
    state: LedgerView,
    address: Seq<u8>,
    principal: Seq<u8>,
    refund_to: Seq<u8>,
) -> Result<LedgerView, Error> {
    match state.record(address) {
        None => Err(Error::NotFound),
        Some(r) => if r.authority != principal {
            Err(Error::Unauthorized)
        } else {
            Ok(state.with_record(address, None).moved(address, refund_to, state.balance(address)))
        },
    }
}

/// The bytes of a record of `size` bytes that holds `payload` behind its tag
/// and zeros behind the payload.
pub open spec fn stored(tag: Seq<u8>, payload: Seq<u8>, size: nat) -> Seq<u8> {
    tag + payload + zeros((size - TAG_LEN - payload.len()) as nat)
}

/// Writing a payload into a new record leaves the tag, the payload and zeros.
pub proof fn lemma_overwritten_blank(tag: Seq<u8>, payload: Seq<u8>, size: nat)
    requires
        tag.len() == TAG_LEN,
        TAG_LEN + payload.len() <= size,
    ensures
        blank(tag, size).len() == size,
        blank(tag, size).subrange(0, TAG_LEN as int) == tag,
        overwritten(blank(tag, size), payload) == stored(tag, payload, size),
        stored(tag, payload, size).len() == size,
        stored(tag, payload, size).subrange(0, TAG_LEN as int) == tag,
        stored(tag, payload, size).subrange(TAG_LEN as int, size as int) == payload + zeros(
            (size - TAG_LEN - payload.len()) as nat,
        ),
{
    assert(blank(tag, size).subrange(0, TAG_LEN as int) =~= tag);
    assert(overwritten(blank(tag, size), payload) =~= stored(tag, payload, size));
    assert(stored(tag, payload, size).subrange(0, TAG_LEN as int) =~= tag);
    assert(stored(tag, payload, size).subrange(TAG_LEN as int, size as int) =~= payload + zeros(
        (size - TAG_LEN - payload.len()) as nat,
    ));
}

/// What `read_owned` returns on a ledger in `state`.
pub open spec fn owned_outcome(
    state: LedgerView,
    address: Seq<u8>,
    program: Seq<u8>,
    tag: Seq<u8>,
) -> Result<Seq<u8>, Error> {
    match state.record(address) {
        None => Err(Error::NotFound),
        Some(r) => if r.data.subrange(0, TAG_LEN as int) != tag {
            Err(Error::LayoutMismatch)
        } else if r.owner != program {
            Err(Error::Unauthorized)
        } else {
            Ok(r.data.subrange(TAG_LEN as int, r.data.len() as int))
        },
    }
}

/// What `create_with` does to a ledger in `state`.
pub open spec fn create_with_outcome(
    state: LedgerView,
    address: Seq<u8>,
    owner: Seq<u8>,
    payer: Seq<u8>,
    size: nat,
    tag: Seq<u8>,
    payload: Seq<u8>,
) -> Result<LedgerView, Error> {
    if state.record(address) is Some {
        Err(Error::AlreadyExists)
    } else if TAG_LEN + payload.len() > size {
        Err(Error::InvalidSize)
    } else {
        match create_outcome(state, address, owner, payer, size, tag) {
            Err(e) => Err(e),
            Ok(created) => Ok(
                created.with_record(
                    address,
                    Some(RecordView { owner, authority: payer, data: stored(tag, payload, size) }),
                ),
            ),
        }
    }
}

/// Creating a record at an address that holds one fails with
/// `AlreadyExists`, whoever pays, whatever its size, tag and payload.
pub proof fn lemma_create_collides(
    state: LedgerView,
    address: Seq<u8>,
    owner: Seq<u8>,
    payer: Seq<u8>,
    size: nat,
    tag: Seq<u8>,
    payload: Seq<u8>,
)
    requires
        state.record(address) is Some,
    ensures
        create_outcome(state, address, owner, payer, size, tag) == Err::<LedgerView, Error>(
            Error::AlreadyExists,
        ),
        create_with_outcome(state, address, owner, payer, size, tag, payload) == Err::<
            LedgerView,
            Error,
        >(Error::AlreadyExists),
{
}

/// Moving lamports, creating, writing and closing records leave the
/// lamports in circulation and the price of a byte as they were.
pub proof fn lemma_supply_is_conserved(
    state: LedgerView,
    address: Seq<u8>,
    other: Seq<u8>,
    principal: Seq<u8>,
    size: nat,
    tag: Seq<u8>,
    payload: Seq<u8>,
)
    ensures
        match transfer_outcome(state, address, other, size, principal) {
            Ok(after) => after.supply == state.supply && after.price == state.price,
            Err(_) => true,
        },
        match create_outcome(state, address, other, principal, size, tag) {
            Ok(after) => after.supply == state.supply && after.price == state.price,
            Err(_) => true,
        },
        match create_with_outcome(state, address, other, principal, size, tag, payload) {
            Ok(after) => after.supply == state.supply && after.price == state.price,
            Err(_) => true,
        },
        match write_outcome(state, address, principal, tag, payload) {
            Ok(after) => after.supply == state.supply && after.price == state.price,
            Err(_) => true,
        },
        match close_outcome(state, address, principal, other) {
            Ok(after) => after.supply == state.supply && after.price == state.price,
            Err(_) => true,
        },
{
}

/// Closing a record for the one who paid for it gives back what was paid:
/// the payer then holds what it held before the record was created and what
/// the address held, and the address holds neither lamports nor a record.
pub proof fn lemma_close_refunds_creation(
    state: LedgerView,
    address: Seq<u8>,
    owner: Seq<u8>,
    payer: Seq<u8>,
    size: nat,
    tag: Seq<u8>,
)
    requires
        create_outcome(state, address, owner, payer, size, tag) is Ok,
        address != payer,
    ensures
        ({
            let created = create_outcome(state, address, owner, payer, size, tag)->Ok_0;
            let closed = close_outcome(created, address, payer, payer);
            &&& closed is Ok
            &&& closed->Ok_0.balance(payer) == state.balance(payer) + state.balance(address)
            &&& closed->Ok_0.balance(address) == 0
            &&& closed->Ok_0.record(address) is None
        }),
{
}

/// Whether a call that reports `r` and leaves `after` behind did what
/// `outcome` says of the state `before`: on success the new state stands, on
/// failure nothing changed.
pub open spec fn settled<T>(
    before: LedgerView,
    after: LedgerView,
    r: Result<T, Error>,
    outcome: Result<LedgerView, Error>,
) -> bool {
    match outcome {
        Ok(state) => r is Ok && after == state,
        Err(e) => r == Err::<T, Error>(e) && after == before,
    }
}

/// `Rent::minimum_balance` on a rent schedule that charges `price` lamports
/// per byte and year and otherwise is the default one, whose exemption
/// threshold is two years: twice the yearly price of the bytes and the
/// overhead. The product is small enough to be doubled exactly.
#[verifier::external_body]
fn minimum_balance(price: u64, size: usize) -> (lamports: u64)
    requires
        size <= MAX_RECORD_SIZE,
        priceable(price, size as nat),
    ensures
        lamports == maintenance_balance(price, size as nat),
{
    let rent = Rent { lamports_per_byte_year: price, ..Rent::default() };
    rent.minimum_balance(size)
}

/// Whether the ledger can price a record of `size` bytes.
fn can_price(price: u64, size: usize) -> (ok: bool)
    requires
        size <= MAX_RECORD_SIZE,
    ensures
        ok == priceable(price, size as nat),
{
    let bytes: u128 = STORAGE_OVERHEAD as u128 + size as u128;
    assert(bytes * price <= 0x100_0000 * 0xffff_ffff_ffff_ffff) by (nonlinear_arith)
        requires
            0 <= bytes <= 0x100_0000,
            0 <= price <= 0xffff_ffff_ffff_ffff,
    ;
    bytes * (price as u128) <= MAX_YEARLY_PRICE as u128
}

/// Whether the record's bytes begin with `tag`.
fn has_tag(data: &Vec<u8>, tag: &[u8; 8]) -> (ok: bool)
    requires
        TAG_LEN <= data@.len(),
    ensures
        ok == (data@.subrange(0, TAG_LEN as int) == tag@),
{
    let mut i: usize = 0;
    while i < 8
        invariant
            i <= 8,
            TAG_LEN <= data@.len(),
            forall|k: int| 0 <= k < i ==> data@[k] == tag@[k],
        decreases 8 - i,
    {
        if data[i] != tag[i] {
            assert(data@.subrange(0, TAG_LEN as int)[i as int] != tag@[i as int]);
            return false;
        }
        i += 1;
    }
    assert(data@.subrange(0, TAG_LEN as int) =~= tag@);
    true
}

/// The ledger: a table of the addresses that were ever paid to or hold a
/// record, the lamports in circulation, and the yearly price of a byte.
pub struct Ledger {
    price: u64,
    supply: u64,
    accounts: Vec<Account>,
}

impl View for Ledger {
    type V = LedgerView;

    closed spec fn view(&self) -> LedgerView {
        LedgerView { accounts: table(self.accounts@), supply: self.supply as nat, price: self.price }
    }
}

impl Ledger {
    /// No address has two entries, and every record has room for its tag.
    closed spec fn shape(&self) -> bool {
        &&& distinct(self.accounts@)
        &&& forall|i: int|
            0 <= i < self.accounts@.len() ==> match (#[trigger] self.accounts@[i]).record {
                Some(r) => TAG_LEN <= r.data@.len() <= MAX_RECORD_SIZE,
                None => true,
            }
    }

    /// The lamports that the entries hold together.
    closed spec fn held(&self) -> nat {
        total(self.accounts@)
    }

    /// The invariant of the ledger: an address has one entry, the entries
    /// hold the lamports in circulation, and a record has room for its tag.
    pub closed spec fn wf(&self) -> bool {
        &&& self.shape()
        &&& self.held() == self.supply
    }

    /// An empty ledger that charges `price` lamports per byte and year.
    pub fn new(price: u64) -> (ledger: Ledger)
        ensures
            ledger.wf(),
            ledger@.accounts == Map::total(|a: Seq<u8>| vacant()),
            ledger@.supply == 0,
            ledger@.price == price,
    {
        Ledger { price, supply: 0, accounts: Vec::new() }
    }

    fn find(&self, a: &Address) -> (at: Option<usize>)
        ensures
            match at {
                Some(i) => i < self.accounts@.len() && self.accounts@[i as int].address@ == a@,
                None => forall|i: int| 0 <= i < self.accounts@.len() ==> self.accounts@[i].address@ != a@,
            },
    {
        let mut i: usize = 0;
        while i < self.accounts.len()
            invariant
                i <= self.accounts@.len(),
                forall|k: int| 0 <= k < i ==> self.accounts@[k].address@ != a@,
            decreases self.accounts@.len() - i,
        {
            if self.accounts[i].address.same(a) {
                return Some(i);
            }
            i += 1;
        }
        None
    }

    /// The yearly price of a byte.
    pub fn price(&self) -> (p: u64)
        ensures
            p == self@.price,
    {
        self.price
    }

    /// The lamports in circulation.
    pub fn supply(&self) -> (n: u64)
        ensures
            n == self@.supply,
    {
        self.supply
    }

    /// The lamports that `a` holds.
    pub fn balance(&self, a: &Address) -> (n: u64)
        requires
            self.wf(),
        ensures
            n == self@.balance(a@),
    {
        match self.find(a) {
            Some(i) => {
                proof {
                    lemma_table_at(self.accounts@, i as int);
                }
                self.accounts[i].lamports
            },
            None => {
                proof {
                    lemma_table_absent(self.accounts@, a@);
                }
                0
            },
        }
    }

    /// The record that occupies `a`, if one does.
    pub fn record(&self, a: &Address) -> (r: Option<&Record>)
        requires
            self.wf(),
        ensures
            match r {
                Some(rec) => self@.record(a@) == Some(rec@),
                None => self@.record(a@) is None,
            },
            r is Some ==> TAG_LEN <= r->0.data@.len() <= MAX_RECORD_SIZE,
    {
        match self.find(a) {
            Some(i) => {
                proof {
                    lemma_table_at(self.accounts@, i as int);
                }
                self.accounts[i].record.as_ref()
            },
            None => {
                proof {
                    lemma_table_absent(self.accounts@, a@);
                }
                None
            },
        }
    }

    /// Pays `n` new lamports to `a`, unless the ledger cannot hold them.
    pub fn mint(&mut self, a: &Address, n: u64) -> (r: Result<(), Error>)
        requires
            old(self).wf(),
        ensures
            final(self).wf(),
            match r {
                Ok(()) => {
                    &&& old(self)@.supply + n <= u64::MAX
                    &&& final(self)@ == old(self)@.minted(a@, n as nat)
                },
                Err(e) => {
                    &&& e == Error::SupplyExceeded
                    &&& old(self)@.supply + n > u64::MAX
                    &&& final(self)@ == old(self)@
                },
            },
    {
        if n > u64::MAX - self.supply {
            return Err(Error::SupplyExceeded);
        }
        let i = self.slot(a);
        proof {
            self.lemma_entry(i as int);
        }
        let raised: u64 = self.accounts[i].lamports + n;
        self.set_lamports(i, raised);
        self.supply = self.supply + n;
        Ok(())
    }

    /// Every record of a well-formed ledger has room for its tag and is no
    /// larger than a record may be.
    pub proof fn lemma_records_hold_tag(&self, a: Seq<u8>)
        requires
            self.wf(),
        ensures
            self@.record(a) is Some ==> TAG_LEN <= self@.record(a)->0.data.len() <= MAX_RECORD_SIZE,
    {
        lemma_table_entry(self.accounts@, a);
    }

    proof fn lemma_entry(&self, i: int)
        requires
            self.shape(),
            0 <= i < self.accounts@.len(),
        ensures
            self@.accounts[self.accounts@[i].address@] == self.accounts@[i]@,
            self.accounts@[i].lamports <= self.held(),
    {
        lemma_table_at(self.accounts@, i);
        lemma_total_bound(self.accounts@, i);
    }

    /// The entry of `a`, which is added as a vacant one where `a` has none.
    fn slot(&mut self, a: &Address) -> (i: usize)
        requires
            old(self).shape(),
        ensures
            final(self).shape(),
            final(self)@ == old(self)@,
            final(self).held() == old(self).held(),
            final(self).supply == old(self).supply,
            i < final(self).accounts@.len(),
            final(self).accounts@[i as int].address@ == a@,
            old(self).accounts@.len() <= final(self).accounts@.len(),
            forall|k: int|
                0 <= k < old(self).accounts@.len() ==> final(self).accounts@[k] == old(self).accounts@[k],
    {
        match self.find(a) {
            Some(i) => i,
            None => {
                let entry = Account { address: *a, lamports: 0, record: None };
                proof {
                    lemma_table_absent(self.accounts@, a@);
                    lemma_table_push(self.accounts@, entry);
                    lemma_table_total_domain(self.accounts@);
                    assert(table(self.accounts@).insert(a@, entry@) =~= table(self.accounts@));
                }
                self.accounts.push(entry);
                self.accounts.len() - 1
            },
        }
    }

    /// Sets the balance of entry `i`.
    fn set_lamports(&mut self, i: usize, lamports: u64)
        requires
            old(self).shape(),
            i < old(self).accounts@.len(),
        ensures
            final(self).shape(),
            final(self)@ == old(self)@.with_balance(
                old(self).accounts@[i as int].address@,
                lamports as nat,
            ),
            final(self).held() == old(self).held() - old(self).accounts@[i as int].lamports
                + lamports,
            final(self).supply == old(self).supply,
            final(self).accounts@.len() == old(self).accounts@.len(),
            final(self).accounts@[i as int].lamports == lamports,
            forall|k: int|
                0 <= k < old(self).accounts@.len() ==> (#[trigger] final(self).accounts@[k]).address
                    == old(self).accounts@[k].address,
            forall|k: int|
                0 <= k < old(self).accounts@.len() && k != i ==> final(self).accounts@[k] == old(self).accounts@[k],
    {
        let ghost before = self.accounts@;
        proof {
            self.lemma_entry(i as int);
        }
        self.accounts[i].lamports = lamports;
        proof {
            let entry = self.accounts@[i as int];
            assert(self.accounts@ =~= before.update(i as int, entry));
            lemma_table_update(before, i as int, entry);
            lemma_total_update(before, i as int, entry);
        }
    }

    /// Sets what record entry `i` holds.
    fn set_record(&mut self, i: usize, record: Option<Record>)
        requires
            old(self).shape(),
            i < old(self).accounts@.len(),
            record is Some ==> TAG_LEN <= record->0.data@.len() <= MAX_RECORD_SIZE,
        ensures
            final(self).shape(),
            final(self)@ == old(self)@.with_record(
                old(self).accounts@[i as int].address@,
                match record {
                    Some(r) => Some(r@),
                    None => None,
                },
            ),
            final(self).held() == old(self).held(),
            final(self).supply == old(self).supply,
            final(self).accounts@.len() == old(self).accounts@.len(),
            forall|k: int|
                0 <= k < old(self).accounts@.len() ==> (#[trigger] final(self).accounts@[k]).address
                    == old(self).accounts@[k].address,
            forall|k: int|
                0 <= k < old(self).accounts@.len() ==> (#[trigger] final(self).accounts@[k]).lamports == old(self).accounts@[k].lamports,
    {
        let ghost before = self.accounts@;
        proof {
            self.lemma_entry(i as int);
        }
        self.accounts[i].record = record;
        proof {
            let entry = self.accounts@[i as int];
            assert(self.accounts@ =~= before.update(i as int, entry));
            lemma_table_update(before, i as int, entry);
            lemma_total_update(before, i as int, entry);
        }
    }

    /// Moves `n` lamports from `from` to `to`, unless `from` holds fewer.
    fn pay(&mut self, from: &Address, to: &Address, n: u64) -> (r: Result<(), Error>)
        requires
            old(self).wf(),
        ensures
            final(self).wf(),
            match r {
                Ok(()) => {
                    &&& old(self)@.balance(from@) >= n
                    &&& final(self)@ == old(self)@.moved(from@, to@, n as nat)
                },
                Err(e) => {
                    &&& e == Error::InsufficientBalance
                    &&& old(self)@.balance(from@) < n
                    &&& final(self)@ == old(self)@
                },
            },
    {
        if self.balance(from) < n {
            return Err(Error::InsufficientBalance);
        }
        let i = self.slot(from);
        let j = self.slot(to);
        proof {
            self.lemma_entry(i as int);
            self.lemma_entry(j as int);
            if i != j {
                lemma_total_bound_two(self.accounts@, i as int, j as int);
            }
        }
        let left: u64 = self.accounts[i].lamports - n;
        self.set_lamports(i, left);
        proof {
            self.lemma_entry(j as int);
        }
        let raised: u64 = self.accounts[j].lamports + n;
        self.set_lamports(j, raised);
        Ok(())
    }

    /// Moves `n` lamports from `from` to `to` for `principal`, who has to be
    /// the owner of the record at `from` or, where `from` holds no record,
    /// `from` itself.
    pub fn transfer(&mut self, from: &Address, to: &Address, n: u64, principal: &Address) -> (r:
        Result<(), Error>)
        requires
            old(self).wf(),
        ensures
            final(self).wf(),
            settled(
                old(self)@,
                final(self)@,
                r,
                transfer_outcome(old(self)@, from@, to@, n as nat, principal@),
            ),
    {
        let allowed = match self.record(from) {
            Some(record) => record.owner.same(principal),
            None => from.same(principal),
        };
        if !allowed {
            return Err(Error::Unauthorized);
        }
        self.pay(from, to, n)
    }

    /// No address holds more than is in circulation, and no more is in
    /// circulation than 64 bits count.
    pub proof fn lemma_balance_within_supply(&self, a: Seq<u8>)
        requires
            self.wf(),
        ensures
            self@.balance(a) <= self@.supply <= u64::MAX,
    {
        lemma_table_entry(self.accounts@, a);
        if self@.accounts[a] != vacant() {
            let i = choose|i: int|
                0 <= i < self.accounts@.len() && table(self.accounts@)[a] == (
                #[trigger] self.accounts@[i])@;
            lemma_total_bound(self.accounts@, i);
        }
    }

    /// Creates a record of `size` bytes at `address`: `payer` backs it with
    /// the maintenance balance of its size and becomes the one who may close
    /// it, `owner` the one who may change it. Returns what `payer` paid.
    pub fn create(
        &mut self,
        address: &Address,
        owner: &Address,
        payer: &Address,
        size: usize,
        tag: &[u8; 8],
    ) -> (r: Result<u64, Error>)
        requires
            old(self).wf(),
        ensures
            final(self).wf(),
            settled(
                old(self)@,
                final(self)@,
                r,
                create_outcome(old(self)@, address@, owner@, payer@, size as nat, tag@),
            ),
            r is Ok ==> r->Ok_0 == maintenance_balance(old(self)@.price, size as nat),
    {
        if self.record(address).is_some() {
            return Err(Error::AlreadyExists);
        }
        if size < TAG_LEN || size > MAX_RECORD_SIZE || !can_price(self.price, size) {
            return Err(Error::InvalidSize);
        }
        let cost = minimum_balance(self.price, size);
        let mut data: Vec<u8> = Vec::new();
        let mut k: usize = 0;
        while k < 8
            invariant
                k <= 8,
                data@ == tag@.subrange(0, k as int),
            decreases 8 - k,
        {
            data.push(tag[k]);
            assert(data@ =~= tag@.subrange(0, k + 1));
            k += 1;
        }
        while k < size
            invariant
                8 <= k <= size,
                data@ == tag@ + zeros((k - 8) as nat),
            decreases size - k,
        {
            data.push(0u8);
            assert(data@ =~= tag@ + zeros((k + 1 - 8) as nat));
            k += 1;
        }
        match self.pay(payer, address, cost) {
            Err(e) => Err(e),
            Ok(()) => {
                let i = self.slot(address);
                proof {
                    self.lemma_entry(i as int);
                }
                self.set_record(i, Some(Record { owner: *owner, authority: *payer, data }));
                Ok(cost)
            },
        }
    }

    /// Reads the bytes behind the tag of the record at `address`, which has
    /// to begin with `tag`.
    pub fn read(&self, address: &Address, tag: &[u8; 8]) -> (r: Result<Vec<u8>, Error>)
        requires
            self.wf(),
        ensures
            match read_outcome(self@, address@, tag@) {
                Ok(payload) => r is Ok && r->Ok_0@ == payload,
                Err(e) => r == Err::<Vec<u8>, Error>(e),
            },
    {
        match self.record(address) {
            None => Err(Error::NotFound),
            Some(record) => {
                if !has_tag(&record.data, tag) {
                    return Err(Error::LayoutMismatch);
                }
                Ok(crate::layout::get_raw(record.data.as_slice(), TAG_LEN, record.data.len()))
            },
        }
    }

    /// Writes `payload` behind the tag of the record at `address`, which has
    /// to begin with `tag` and to be owned by `program`.
    pub fn write(&mut self, address: &Address, program: &Address, tag: &[u8; 8], payload: &[u8]) -> (r:
        Result<(), Error>)
        requires
            old(self).wf(),
        ensures
            final(self).wf(),
            settled(
                old(self)@,
                final(self)@,
                r,
                write_outcome(old(self)@, address@, program@, tag@, payload@),
            ),
    {
        let (owner, authority, mut data) = match self.record(address) {
            None => {
                return Err(Error::NotFound);
            },
            Some(record) => {
                if !has_tag(&record.data, tag) {
                    return Err(Error::LayoutMismatch);
                }
                if !record.owner.same(program) {
                    return Err(Error::Unauthorized);
                }
                if payload.len() > record.data.len() - TAG_LEN {
                    return Err(Error::InvalidSize);
                }
                (record.owner, record.authority, record.data.clone())
            },
        };
        let ghost before = data@;
        let mut k: usize = 0;
        while k < payload.len()
            invariant
                k <= payload@.len(),
                TAG_LEN + payload@.len() <= before.len() <= MAX_RECORD_SIZE,
                data@.len() == before.len(),
                data@ == before.subrange(0, TAG_LEN as int) + payload@.subrange(0, k as int)
                    + before.subrange(TAG_LEN + k, before.len() as int),
            decreases payload@.len() - k,
        {
            data[TAG_LEN + k] = payload[k];
            assert(data@ =~= before.subrange(0, TAG_LEN as int) + payload@.subrange(0, k + 1)
                + before.subrange(TAG_LEN + k + 1, before.len() as int));
            k += 1;
        }
        assert(payload@.subrange(0, k as int) =~= payload@);
        let i = self.slot(address);
        proof {
            self.lemma_entry(i as int);
        }
        self.set_record(i, Some(Record { owner, authority, data }));
        Ok(())
    }

    /// Closes the record at `address` for `principal`, who has to be the one
    /// who may close it: the whole balance at the address goes to `refund_to`
    /// and the record is gone. Returns the balance that was refunded.
    pub fn close(&mut self, address: &Address, principal: &Address, refund_to: &Address) -> (r:
        Result<u64, Error>)
        requires
            old(self).wf(),
        ensures
            final(self).wf(),
            settled(
                old(self)@,
                final(self)@,
                r,
                close_outcome(old(self)@, address@, principal@, refund_to@),
            ),
            r is Ok ==> r->Ok_0 == old(self)@.balance(address@),
    {
        match self.record(address) {
            None => {
                return Err(Error::NotFound);
            },
            Some(record) => {
                if !record.authority.same(principal) {
                    return Err(Error::Unauthorized);
                }
            },
        }
        let i = self.slot(address);
        proof {
            self.lemma_entry(i as int);
        }
        self.set_record(i, None);
        let refund = self.balance(address);
        let moved = self.pay(address, refund_to, refund);
        Ok(refund)
    }

    /// Reads the bytes behind the tag of the record at `address`, which has
    /// to begin with `tag` and to be owned by `program`.
    pub fn read_owned(&self, address: &Address, program: &Address, tag: &[u8; 8]) -> (r: Result<
        Vec<u8>,
        Error,
    >)
        requires
            self.wf(),
        ensures
            match owned_outcome(self@, address@, program@, tag@) {
                Ok(payload) => r is Ok && r->Ok_0@ == payload,
                Err(e) => r == Err::<Vec<u8>, Error>(e),
            },
            r is Ok ==> r->Ok_0@.len() + TAG_LEN <= MAX_RECORD_SIZE,
    {
        match self.record(address) {
            None => Err(Error::NotFound),
            Some(record) => {
                if !has_tag(&record.data, tag) {
                    return Err(Error::LayoutMismatch);
                }
                if !record.owner.same(program) {
                    return Err(Error::Unauthorized);
                }
                Ok(crate::layout::get_raw(record.data.as_slice(), TAG_LEN, record.data.len()))
            },
        }
    }

    /// Creates a record of `size` bytes at `address` as `create` does, and
    /// writes `payload` behind its tag. Returns what `payer` paid.
    pub fn create_with(
        &mut self,
        address: &Address,
        owner: &Address,
        payer: &Address,
        size: usize,
        tag: &[u8; 8],
        payload: &[u8],
    ) -> (r: Result<u64, Error>)
        requires
            old(self).wf(),
        ensures
            final(self).wf(),
            settled(
                old(self)@,
                final(self)@,
                r,
                create_with_outcome(
                    old(self)@,
                    address@,
                    owner@,
                    payer@,
                    size as nat,
                    tag@,
                    payload@,
                ),
            ),
            r is Ok ==> r->Ok_0 == maintenance_balance(old(self)@.price, size as nat),
    {
        if self.record(address).is_some() {
            return Err(Error::AlreadyExists);
        }
        if size < TAG_LEN || payload.len() > size - TAG_LEN {
            return Err(Error::InvalidSize);
        }
        match self.create(address, owner, payer, size, tag) {
            Err(e) => Err(e),
            Ok(cost) => {
                proof {
                    lemma_overwritten_blank(tag@, payload@, size as nat);
                }
                match self.write(address, owner, tag, payload) {
                    Ok(()) => Ok(cost),
                    Err(e) => Err(e),
                }
            },
        }
    }
}

} // verus!
