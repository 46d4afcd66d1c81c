//! Adding a reaction to a post: the record of a reaction lives at an address
//! derived from its author and the post, so an author has one per post.

use crate::address::{derived, found_view, parts_of, verified_bump, verify_address, Address};
use crate::error::Error;
use crate::states::{
    lemma_reaction_round_trip, lemma_tweet_round_trip, reacted, reaction_encoded, reaction_seed, reaction_seed_bytes,
    reaction_tag, reaction_tag_bytes, tweet_decoded, tweet_encoded, tweet_tag, tweet_tag_bytes,
    Reaction, ReactionType, ReactionView, Tweet, REACTION_SIZE,
};
use crate::store::{
    create_with_outcome, overwritten, owned_outcome, settled, Ledger, LedgerView, RecordView,
    TAG_LEN,
};
use vstd::prelude::*;

verus! {

/// The addresses that adding a reaction touches: the program, the author who
/// pays for the reaction, the reaction, and the post it is on.
#[derive(Clone, Copy, Debug, PartialEq, Eq)]
pub struct AddReactionContext {
    pub program_id: Address,
    pub reaction_author: Address,
    pub tweet_reaction: Address,
    pub tweet: Address,
}

/// The seed parts of the address of a reaction: the seed tag, the author,
/// and the post.
pub open spec fn reaction_seeds(author: Seq<u8>, tweet: Seq<u8>) -> Seq<Seq<u8>> {
    seq![reaction_seed(), author, tweet]
}

/// What `add_reaction` does to a ledger in `state`, where `found` is what
/// deriving the address of the reaction gave.
pub open spec fn add_reaction_outcome(
    state: LedgerView,
    ctx: AddReactionContext,
    reaction: ReactionType,
    found: Option<(Seq<u8>, u8)>,
) -> Result<LedgerView, Error> {
    match verified_bump(ctx.tweet_reaction@, found) {
        Err(e) => Err(e),
        Ok(bump) => match owned_outcome(state, ctx.tweet@, ctx.program_id@, tweet_tag()) {
            Err(e) => Err(e),
            Ok(post) => match tweet_decoded(post) {
                None => Err(Error::LayoutMismatch),
                Some(tweet) => match create_with_outcome(
                    state,
                    ctx.tweet_reaction@,
                    ctx.program_id@,
                    ctx.reaction_author@,
                    REACTION_SIZE as nat,
                    reaction_tag(),
                    reaction_encoded(
                        ReactionView {
                            reaction_author: ctx.reaction_author@,
                            parent_tweet: ctx.tweet@,
                            reaction,
                            bump,
                        },
                    ),
                ) {
                    Err(e) => Err(e),
                    Ok(created) => Ok(
                        created.with_record(
                            ctx.tweet@,
                            Some(
                                RecordView {
                                    data: overwritten(
                                        state.record(ctx.tweet@)->0.data,
                                        tweet_encoded(reacted(tweet, reaction)),
                                    ),
                                    ..state.record(ctx.tweet@)->0
                                },
                            ),
                        ),
                    ),
                },
            },
        },
    }
}

/// The seed parts of the address of the reaction of `author` to `tweet`.
pub fn reaction_seed_parts(author: &Address, tweet: &Address) -> (seeds: Vec<Vec<u8>>)
    ensures
        parts_of(seeds@) == reaction_seeds(author@, tweet@),
{
    let seeds: Vec<Vec<u8>> = vec![reaction_seed_bytes(), author.to_vec(), tweet.to_vec()];
    assert(parts_of(seeds@) =~= reaction_seeds(author@, tweet@));
    seeds
}

/// Adds a reaction at the address that `found` verifies: the author pays
/// for the record, which holds author, post, kind and disambiguation byte,
/// and the post counts one more reaction of the kind.
pub fn add_reaction_at(
    ledger: &mut Ledger,
    ctx: &AddReactionContext,
    reaction: ReactionType,
    found: Option<(Address, u8)>,
) -> (r: Result<(), Error>)
    requires
        old(ledger).wf(),
    ensures
        final(ledger).wf(),
        settled(
            old(ledger)@,
            final(ledger)@,
            r,
            add_reaction_outcome(old(ledger)@, *ctx, reaction, found_view(found)),
        ),
{
    let bump = match verify_address(&ctx.tweet_reaction, found) {
        Err(e) => {
            return Err(e);
        },
        Ok(bump) => bump,
    };
    let post_tag = tweet_tag_bytes();
    let post = match ledger.read_owned(&ctx.tweet, &ctx.program_id, &post_tag) {
        Err(e) => {
            return Err(e);
        },
        Ok(post) => post,
    };
    let mut tweet = match Tweet::decode(post.as_slice()) {
        None => {
            return Err(Error::LayoutMismatch);
        },
        Some(tweet) => tweet,
    };
    proof {
        ledger.lemma_records_hold_tag(ctx.tweet@);
    }
    assert(tweet@.tweet_author.len() == 32);
    assert(52 + tweet@.content.len() <= post@.len());
    tweet.add_reaction(reaction);
    proof {
        lemma_tweet_round_trip(tweet@, Seq::empty());
    }
    let counted = match tweet.encode() {
        None => {
            return Err(Error::LayoutMismatch);
        },
        Some(counted) => counted,
    };
    let entry = Reaction {
        reaction_author: ctx.reaction_author,
        parent_tweet: ctx.tweet,
        reaction,
        bump,
    };
    let payload = entry.encode();
    proof {
        lemma_reaction_round_trip(entry@, Seq::empty());
    }
    record_reaction(ledger, ctx, payload.as_slice(), counted.as_slice())
}

/// Creates the record of a reaction with its bytes and writes the bytes of
/// the post that has counted it.
fn record_reaction(
    ledger: &mut Ledger,
    ctx: &AddReactionContext,
    payload: &[u8],
    counted: &[u8],
) -> (r: Result<(), Error>)
    requires
        old(ledger).wf(),
        owned_outcome(old(ledger)@, ctx.tweet@, ctx.program_id@, tweet_tag()) is Ok,
        TAG_LEN + counted@.len() <= old(ledger)@.record(ctx.tweet@)->0.data.len(),
    ensures
        final(ledger).wf(),
        settled(
            old(ledger)@,
            final(ledger)@,
            r,
            match create_with_outcome(
                old(ledger)@,
                ctx.tweet_reaction@,
                ctx.program_id@,
                ctx.reaction_author@,
                REACTION_SIZE as nat,
                reaction_tag(),
                payload@,
            ) {
                Err(e) => Err(e),
                Ok(created) => Ok(
                    created.with_record(
                        ctx.tweet@,
                        Some(
                            RecordView {
                                data: overwritten(
                                    old(ledger)@.record(ctx.tweet@)->0.data,
                                    counted@,
                                ),
                                ..old(ledger)@.record(ctx.tweet@)->0
                            },
                        ),
                    ),
                ),
            },
        ),
{
    let ghost before = ledger@;
    let created = ledger.create_with(
        &ctx.tweet_reaction,
        &ctx.program_id,
        &ctx.reaction_author,
        REACTION_SIZE,
        &reaction_tag_bytes(),
        payload,
    );
    match created {
        Err(e) => Err(e),
        Ok(_) => {
            assert(ctx.tweet_reaction@ != ctx.tweet@);
            assert(ledger@.record(ctx.tweet@) == before.record(ctx.tweet@));
            match ledger.write(&ctx.tweet, &ctx.program_id, &tweet_tag_bytes(), counted) {
                Ok(()) => Ok(()),
                Err(e) => Err(e),
            }
        },
    }
}

/// Adds a reaction to a post: the supplied address has to be the one
/// derived from the author and the post.
pub fn add_reaction(ledger: &mut Ledger, ctx: &AddReactionContext, reaction: ReactionType) -> (r:
    Result<(), Error>)
    requires
        old(ledger).wf(),
    ensures
        final(ledger).wf(),
        settled(
            old(ledger)@,
            final(ledger)@,
            r,
            add_reaction_outcome(
                old(ledger)@,
                *ctx,
                reaction,
                derived(reaction_seeds(ctx.reaction_author@, ctx.tweet@), ctx.program_id@),
            ),
        ),
{
    let seeds = reaction_seed_parts(&ctx.reaction_author, &ctx.tweet);
    let found = crate::address::derive(&seeds, &ctx.program_id);
    add_reaction_at(ledger, ctx, reaction, found)
}

} // verus!
