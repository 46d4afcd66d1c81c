//! The wagering escrow: a pooled vault that takes stakes and pays winners.

use crate::address::{derived, found_view, parts_of, verified_bump, verify_address, Address};
use crate::error::Error;
use crate::store::{
    create_with_outcome, owned_outcome, settled, transfer_outcome, Ledger, LedgerView,
};
use vstd::prelude::*;

verus! {

/// Size of the record of the vault: tag and disambiguation byte.
pub const VAULT_SIZE: usize = 9;

/// Seed of the address of the vault: the text `vault`.
pub open spec fn vault_seed() -> Seq<u8> {
    seq![118u8, 97, 117, 108, 116]
}

/// Layout tag of the vault.
pub open spec fn vault_tag() -> Seq<u8> {
    seq![211u8, 8, 232, 43, 2, 152, 117, 119]
}

/// The seed parts of the address of the vault.
pub fn vault_seeds() -> (seeds: Vec<Vec<u8>>)
    ensures
        parts_of(seeds@) == seq![vault_seed()],
{
    let seed: Vec<u8> = vec![118u8, 97, 117, 108, 116];
    assert(seed@ =~= vault_seed());
    let seeds: Vec<Vec<u8>> = vec![seed];
    assert(parts_of(seeds@) =~= seq![vault_seed()]);
    seeds
}

/// The layout tag of the vault.
pub fn vault_tag_bytes() -> (tag: [u8; 8])
    ensures
        tag@ == vault_tag(),
{
    let tag: [u8; 8] = [211u8, 8, 232, 43, 2, 152, 117, 119];
    assert(tag@ =~= vault_tag());
    tag
}

/// Why a wager was rejected.
#[derive(Clone, Copy, Debug, PartialEq, Eq)]
pub enum CoinflipError {
    /// The choice is neither 0 nor 1.
    InvalidChoice,
    /// The stake is zero.
    InvalidAmount,
    /// The vault holds less than twice the stake.
    InsufficientFunds,
}

/// The pooled escrow of a program: the disambiguation byte of its address.
#[derive(Clone, Copy, Debug, PartialEq, Eq)]
pub struct Vault {
    pub bump: u8,
}

/// The bytes of the vault behind its tag.
pub open spec fn vault_encoded(vault: Vault) -> Seq<u8> {
    seq![vault.bump]
}

/// The vault that the bytes behind a tag begin with, if they begin with one.
pub open spec fn vault_decoded(p: Seq<u8>) -> Option<Vault> {
    if p.len() < 1 {
        None
    } else {
        Some(Vault { bump: p[0] })
    }
}

impl Vault {
    /// The bytes of the vault.
    pub fn encode(&self) -> (bytes: Vec<u8>)
        ensures
            bytes@ == vault_encoded(*self),
    {
        let bytes: Vec<u8> = vec![self.bump];
        assert(bytes@ =~= vault_encoded(*self));
        bytes
    }

    /// The vault that the bytes begin with, if they begin with one.
    pub fn decode(payload: &[u8]) -> (r: Option<Vault>)
        ensures
            r == vault_decoded(payload@),
    {
        if payload.len() < 1 {
            None
        } else {
            Some(Vault { bump: payload[0] })
        }
    }
}

/// The vault is read back from its bytes, whatever follows them.
pub proof fn lemma_vault_round_trip(vault: Vault, rest: Seq<u8>)
    ensures
        vault_decoded(vault_encoded(vault) + rest) == Some(vault),
{
}

/// The addresses that creating the vault touches: the program, the vault,
/// and the principal who pays for it.
#[derive(Clone, Copy, Debug, PartialEq, Eq)]
pub struct InitializeVault {
    pub program_id: Address,
    pub vault: Address,
    pub signer: Address,
}

/// The addresses that a wager touches, and the counter that decides it: the
/// program, the vault, the player, and the platform's slot counter.
#[derive(Clone, Copy, Debug, PartialEq, Eq)]
pub struct FlipCoin {
    pub program_id: Address,
    pub vault: Address,
    pub player: Address,
    pub slot: u64,
}

/// What the check of a wager against the balance of the vault gives.
pub open spec fn wager_checked(choice: u8, amount: u64, vault_balance: int) -> Result<
    (),
    CoinflipError,
> {
    if choice > 1 {
        Err(CoinflipError::InvalidChoice)
    } else if amount == 0 {
        Err(CoinflipError::InvalidAmount)
    } else if vault_balance < 2 * amount {
        Err(CoinflipError::InsufficientFunds)
    } else {
        Ok(())
    }
}

/// The side that the counter decides for: its parity.
pub open spec fn outcome(slot: u64) -> u8 {
    (slot % 2) as u8
}

/// The balance of a vault that held `balance` after a wager against it: a
/// rejected wager leaves it, an accepted one adds the stake and takes twice
/// the stake where the player has won.
pub open spec fn vault_after_flip(balance: int, choice: u8, amount: u64, slot: u64) -> int {
    if wager_checked(choice, amount, balance) is Ok {
        if outcome(slot) == choice {
            balance + amount - 2 * amount
        } else {
            balance + amount
        }
    } else {
        balance
    }
}

/// A wager and the counter that decided it.
pub struct Flip {
    pub choice: u8,
    pub amount: u64,
    pub slot: u64,
}

/// The balance of a vault that held `balance` after the wagers, one after
/// the other.
pub open spec fn vault_after_flips(balance: int, flips: Seq<Flip>) -> int
    decreases flips.len(),
{
    if flips.len() == 0 {
        balance
    } else {
        let last = flips.last();
        vault_after_flip(
            vault_after_flips(balance, flips.drop_last()),
            last.choice,
            last.amount,
            last.slot,
        )
    }
}

/// One wager leaves a vault that was not in debt out of debt; an accepted
/// one leaves it at least the stake.
pub proof fn lemma_flip_keeps_vault_solvent(balance: int, choice: u8, amount: u64, slot: u64)
    requires
        balance >= 0,
    ensures
        vault_after_flip(balance, choice, amount, slot) >= 0,
        wager_checked(choice, amount, balance) is Ok ==> vault_after_flip(
            balance,
            choice,
            amount,
            slot,
        ) >= amount,
{
}

/// However many wagers are made against a vault that was not in debt, each
/// checked against the balance it finds, the vault never is in debt.
pub proof fn lemma_vault_never_negative(balance: int, flips: Seq<Flip>)
    requires
        balance >= 0,
    ensures
        vault_after_flips(balance, flips) >= 0,
    decreases flips.len(),
{
    if flips.len() > 0 {
        let last = flips.last();
        lemma_vault_never_negative(balance, flips.drop_last());
        lemma_flip_keeps_vault_solvent(
            vault_after_flips(balance, flips.drop_last()),
            last.choice,
            last.amount,
            last.slot,
        );
    }
}

/// Checks a wager against the balance of the vault: the choice is 0 or 1,
/// the stake is not zero, and the vault holds twice the stake.
pub fn check_wager(choice: u8, amount: u64, vault_balance: u64) -> (r: Result<(), CoinflipError>)
    ensures
        r == wager_checked(choice, amount, vault_balance as int),
{
    if choice > 1 {
        Err(CoinflipError::InvalidChoice)
    } else if amount == 0 {
        Err(CoinflipError::InvalidAmount)
    } else if vault_balance / 2 < amount {
        Err(CoinflipError::InsufficientFunds)
    } else {
        Ok(())
    }
}

/// The side that the counter decides for.
pub fn draw(slot: u64) -> (side: u8)
    ensures
        side == outcome(slot),
{
    (slot % 2) as u8
}

/// What `initialize_vault` does to a ledger in `state`, where `found` is
/// what deriving the address of the vault gave.
pub open spec fn initialize_vault_outcome(
    state: LedgerView,
    ctx: InitializeVault,
    found: Option<(Seq<u8>, u8)>,
) -> Result<LedgerView, Error> {
    match verified_bump(ctx.vault@, found) {
        Err(e) => Err(e),
        Ok(bump) => create_with_outcome(
            state,
            ctx.vault@,
            ctx.program_id@,
            ctx.signer@,
            VAULT_SIZE as nat,
            vault_tag(),
            vault_encoded(Vault { bump }),
        ),
    }
}

/// What `flip_coin` does to a ledger in `state`, where `found` is what
/// deriving the address of the vault gave.
pub open spec fn flip_coin_outcome(
    state: LedgerView,
    ctx: FlipCoin,
    found: Option<(Seq<u8>, u8)>,
    choice: u8,
    amount: u64,
) -> Result<LedgerView, Error> {
    match verified_bump(ctx.vault@, found) {
        Err(e) => Err(e),
        Ok(bump) => match owned_outcome(state, ctx.vault@, ctx.program_id@, vault_tag()) {
            Err(e) => Err(e),
            Ok(payload) => match vault_decoded(payload) {
                None => Err(Error::LayoutMismatch),
                Some(vault) => if vault.bump != bump {
                    Err(Error::AddressMismatch)
                } else {
                    match wager_checked(choice, amount, state.balance(ctx.vault@) as int) {
                        Err(e) => Err(Error::Coinflip(e)),
                        Ok(()) => match transfer_outcome(
                            state,
                            ctx.player@,
                            ctx.vault@,
                            amount as nat,
                            ctx.player@,
                        ) {
                            Err(e) => Err(e),
                            Ok(staked) => if outcome(ctx.slot) == choice {
                                Ok(staked.moved(ctx.vault@, ctx.player@, (2 * amount) as nat))
                            } else {
                                Ok(staked)
                            },
                        },
                    }
                },
            },
        },
    }
}

/// Creates the vault of a program at the address that `found` verifies,
/// paid for by the signer, and notes the disambiguation byte in it.
pub fn initialize_vault_at(
    ledger: &mut Ledger,
    ctx: &InitializeVault,
    found: Option<(Address, u8)>,
) -> (r: Result<(), Error>)
    requires
        old(ledger).wf(),
    ensures
        final(ledger).wf(),
        settled(
            old(ledger)@,
            final(ledger)@,
            r,
            initialize_vault_outcome(old(ledger)@, *ctx, found_view(found)),
        ),
{
    let bump = match verify_address(&ctx.vault, found) {
        Err(e) => {
            return Err(e);
        },
        Ok(bump) => bump,
    };
    let payload = Vault { bump }.encode();
    let created = ledger.create_with(
        &ctx.vault,
        &ctx.program_id,
        &ctx.signer,
        VAULT_SIZE,
        &vault_tag_bytes(),
        payload.as_slice(),
    );
    match created {
        Ok(_) => Ok(()),
        Err(e) => Err(e),
    }
}

/// Creates the vault of a program: the supplied address has to be the one
/// derived from the seed of the vault under the program.
pub fn initialize_vault(ledger: &mut Ledger, ctx: &InitializeVault) -> (r: Result<(), Error>)
    requires
        old(ledger).wf(),
    ensures
        final(ledger).wf(),
        settled(
            old(ledger)@,
            final(ledger)@,
            r,
            initialize_vault_outcome(
                old(ledger)@,
                *ctx,
                derived(seq![vault_seed()], ctx.program_id@),
            ),
        ),
{
    let found = crate::address::derive(&vault_seeds(), &ctx.program_id);
    initialize_vault_at(ledger, ctx, found)
}

/// Plays a wager against the vault that `found` verifies: the stake goes
/// from the player to the vault, and twice the stake comes back where the
/// counter decides for the player's choice.
pub fn flip_coin_at(
    ledger: &mut Ledger,
    ctx: &FlipCoin,
    found: Option<(Address, u8)>,
    choice: u8,
    amount: u64,
) -> (r: Result<(), Error>)
    requires
        old(ledger).wf(),
    ensures
        final(ledger).wf(),
        settled(
            old(ledger)@,
            final(ledger)@,
            r,
            flip_coin_outcome(old(ledger)@, *ctx, found_view(found), choice, amount),
        ),
        r is Ok && ctx.player@ != ctx.vault@ ==> final(ledger)@.balance(ctx.vault@)
            == vault_after_flip(
            old(ledger)@.balance(ctx.vault@) as int,
            choice,
            amount,
            ctx.slot,
        ),
{
    let bump = match verify_address(&ctx.vault, found) {
        Err(e) => {
            return Err(e);
        },
        Ok(bump) => bump,
    };
    let payload = match ledger.read_owned(&ctx.vault, &ctx.program_id, &vault_tag_bytes()) {
        Err(e) => {
            return Err(e);
        },
        Ok(payload) => payload,
    };
    let vault = match Vault::decode(payload.as_slice()) {
        None => {
            return Err(Error::LayoutMismatch);
        },
        Some(vault) => vault,
    };
    if vault.bump != bump {
        return Err(Error::AddressMismatch);
    }
    match check_wager(choice, amount, ledger.balance(&ctx.vault)) {
        Err(e) => {
            return Err(Error::Coinflip(e));
        },
        Ok(()) => {},
    }
    match ledger.transfer(&ctx.player, &ctx.vault, amount, &ctx.player) {
        Err(e) => {
            return Err(e);
        },
        Ok(()) => {},
    }
    if draw(ctx.slot) == choice {
        match ledger.transfer(&ctx.vault, &ctx.player, 2 * amount, &ctx.program_id) {
            Ok(()) => Ok(()),
            Err(e) => Err(e),
        }
    } else {
        Ok(())
    }
}

/// Plays a wager against the vault of a program: the supplied address has
/// to be the one derived from the seed of the vault under the program.
pub fn flip_coin(ledger: &mut Ledger, ctx: &FlipCoin, choice: u8, amount: u64) -> (r: Result<
    (),
    Error,
>)
    requires
        old(ledger).wf(),
    ensures
        final(ledger).wf(),
        settled(
            old(ledger)@,
            final(ledger)@,
            r,
            flip_coin_outcome(
                old(ledger)@,
                *ctx,
                derived(seq![vault_seed()], ctx.program_id@),
                choice,
                amount,
            ),
        ),
        r is Ok && ctx.player@ != ctx.vault@ ==> final(ledger)@.balance(ctx.vault@)
            == vault_after_flip(
            old(ledger)@.balance(ctx.vault@) as int,
            choice,
            amount,
            ctx.slot,
        ),
{
    let found = crate::address::derive(&vault_seeds(), &ctx.program_id);
    flip_coin_at(ledger, ctx, found, choice, amount)
}

} // verus!
