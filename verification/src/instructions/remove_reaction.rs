//! Removing a reaction from a post: the post counts one reaction less, the
//! record of the reaction is closed, and its balance goes back to its author.

use crate::address::{derived, found_view, verified_bump, verify_address, Address};
use crate::error::Error;
use crate::instructions::add_reaction::{reaction_seed_parts, reaction_seeds};
use crate::states::{
    lemma_tweet_round_trip, reaction_decoded, reaction_tag, reaction_tag_bytes, tweet_decoded,
    tweet_encoded, tweet_tag, tweet_tag_bytes, unreacted, Reaction, Tweet,
};
use crate::store::{
    close_outcome, overwritten, owned_outcome, settled, Ledger, LedgerView, RecordView, TAG_LEN,
};
use vstd::prelude::*;

verus! {

/// The addresses that removing a reaction touches: the program, the author
/// of the reaction, the reaction, and the post it is on.
#[derive(Clone, Copy, Debug, PartialEq, Eq)]
pub struct RemoveReactionContext {
    pub program_id: Address,
    pub reaction_author: Address,
    pub tweet_reaction: Address,
    pub tweet: Address,
}

/// What `remove_reaction` does to a ledger in `state`, where `found` is
/// what deriving the address of the reaction gave.
pub open spec fn remove_reaction_outcome(
    state: LedgerView,
    ctx: RemoveReactionContext,
    found: Option<(Seq<u8>, u8)>,
) -> Result<LedgerView, Error> {
    match owned_outcome(state, ctx.tweet_reaction@, ctx.program_id@, reaction_tag()) {
        Err(e) => Err(e),
        Ok(bytes) => match reaction_decoded(bytes) {
            None => Err(Error::LayoutMismatch),
            Some(reaction) => if reaction.reaction_author != ctx.reaction_author@ {
                Err(Error::Unauthorized)
            } else {
                match verified_bump(ctx.tweet_reaction@, found) {
                    Err(e) => Err(e),
                    Ok(bump) => if reaction.bump != bump {
                        Err(Error::AddressMismatch)
                    } else {
                        match owned_outcome(state, ctx.tweet@, ctx.program_id@, tweet_tag()) {
                            Err(e) => Err(e),
                            Ok(post) => match tweet_decoded(post) {
                                None => Err(Error::LayoutMismatch),
                                Some(tweet) => uncounted(
                                    state,
                                    ctx,
                                    tweet_encoded(unreacted(tweet, reaction.reaction)),
                                ),
                            },
                        }
                    },
                }
            },
        },
    }
}

/// The state after the reaction was closed for its author and refunded to
/// the author, and the post was written with the bytes `counted`.
pub open spec fn uncounted(state: LedgerView, ctx: RemoveReactionContext, counted: Seq<u8>) -> Result<
    LedgerView,
    Error,
> {
    match close_outcome(
        state,
        ctx.tweet_reaction@,
        ctx.reaction_author@,
        ctx.reaction_author@,
    ) {
        Err(e) => Err(e),
        Ok(closed) => Ok(
            closed.with_record(
                ctx.tweet@,
                Some(
                    RecordView {
                        data: overwritten(state.record(ctx.tweet@)->0.data, counted),
                        ..state.record(ctx.tweet@)->0
                    },
                ),
            ),
        ),
    }
}

/// Closes the record of the reaction and writes the bytes of the post that
/// has counted it out.
fn erase_reaction(ledger: &mut Ledger, ctx: &RemoveReactionContext, counted: &[u8]) -> (r: Result<
    (),
    Error,
>)
    requires
        old(ledger).wf(),
        ctx.tweet@ != ctx.tweet_reaction@,
        owned_outcome(old(ledger)@, ctx.tweet@, ctx.program_id@, tweet_tag()) is Ok,
        TAG_LEN + counted@.len() <= old(ledger)@.record(ctx.tweet@)->0.data.len(),
    ensures
        final(ledger).wf(),
        settled(old(ledger)@, final(ledger)@, r, uncounted(old(ledger)@, *ctx, counted@)),
{
    let ghost before = ledger@;
    let closed = ledger.close(&ctx.tweet_reaction, &ctx.reaction_author, &ctx.reaction_author);
    match closed {
        Err(e) => Err(e),
        Ok(_) => {
            assert(ledger@.record(ctx.tweet@) == before.record(ctx.tweet@));
            match ledger.write(&ctx.tweet, &ctx.program_id, &tweet_tag_bytes(), counted) {
                Ok(()) => Ok(()),
                Err(e) => Err(e),
            }
        },
    }
}

/// Removes the reaction at the supplied address for its author, where
/// `found` verifies the address: the post counts one reaction of its kind
/// less, and the balance of the record goes to the author.
pub fn remove_reaction_at(
    ledger: &mut Ledger,
    ctx: &RemoveReactionContext,
    found: Option<(Address, u8)>,
) -> (r: Result<(), Error>)
    requires
        old(ledger).wf(),
    ensures
        final(ledger).wf(),
        settled(
            old(ledger)@,
            final(ledger)@,
            r,
            remove_reaction_outcome(old(ledger)@, *ctx, found_view(found)),
        ),
{
    let bytes = match ledger.read_owned(&ctx.tweet_reaction, &ctx.program_id, &reaction_tag_bytes()) {
        Err(e) => {
            return Err(e);
        },
        Ok(bytes) => bytes,
    };
    let reaction = match Reaction::decode(bytes.as_slice()) {
        None => {
            return Err(Error::LayoutMismatch);
        },
        Some(reaction) => reaction,
    };
    if !reaction.reaction_author.same(&ctx.reaction_author) {
        return Err(Error::Unauthorized);
    }
    let bump = match verify_address(&ctx.tweet_reaction, found) {
        Err(e) => {
            return Err(e);
        },
        Ok(bump) => bump,
    };
    if reaction.bump != bump {
        return Err(Error::AddressMismatch);
    }
    let post = match ledger.read_owned(&ctx.tweet, &ctx.program_id, &tweet_tag_bytes()) {
        Err(e) => {
            return Err(e);
        },
        Ok(post) => post,
    };
    let mut tweet = match Tweet::decode(post.as_slice()) {
        None => {
            return Err(Error::LayoutMismatch);
        },
        Some(tweet) => tweet,
    };
    proof {
        ledger.lemma_records_hold_tag(ctx.tweet@);
        assert(reaction_tag()[0] != tweet_tag()[0]);
    }
    assert(tweet@.tweet_author.len() == 32);
    assert(52 + tweet@.content.len() <= post@.len());
    tweet.remove_reaction(reaction.reaction);
    proof {
        lemma_tweet_round_trip(tweet@, Seq::empty());
    }
    let counted = match tweet.encode() {
        None => {
            return Err(Error::LayoutMismatch);
        },
        Some(counted) => counted,
    };
    erase_reaction(ledger, ctx, counted.as_slice())
}

/// Removes the reaction of an author from a post: the supplied address has
/// to hold a reaction of the author and to be the one derived from the
/// author and the post.
pub fn remove_reaction(ledger: &mut Ledger, ctx: &RemoveReactionContext) -> (r: Result<(), Error>)
    requires
        old(ledger).wf(),
    ensures
        final(ledger).wf(),
        settled(
            old(ledger)@,
            final(ledger)@,
            r,
            remove_reaction_outcome(
                old(ledger)@,
                *ctx,
                derived(reaction_seeds(ctx.reaction_author@, ctx.tweet@), ctx.program_id@),
            ),
        ),
{
    let seeds = reaction_seed_parts(&ctx.reaction_author, &ctx.tweet);
    let found = crate::address::derive(&seeds, &ctx.program_id);
    remove_reaction_at(ledger, ctx, found)
}

} // verus!
