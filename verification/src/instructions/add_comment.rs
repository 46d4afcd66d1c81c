//! Adding a comment to a post: the record of a comment lives at an address
//! derived from its author, the hash of its content, and the post.

use crate::address::{
    content_hash, derived, found_view, parts_of, sha256, verified_bump, verify_address, Address,
};
use crate::error::Error;
use crate::layout::get_raw;
use crate::states::{
    comment_encoded, comment_seed, comment_seed_bytes, comment_tag, comment_tag_bytes,
    lemma_comment_round_trip, tweet_decoded, tweet_tag, tweet_tag_bytes, Comment, CommentView,
    Tweet, COMMENT_LENGTH, COMMENT_SIZE,
};
use crate::store::{create_with_outcome, owned_outcome, settled, Ledger, LedgerView};
use vstd::prelude::*;

verus! {

/// The addresses that adding a comment touches: the program, the author who
/// pays for the comment, the comment, and the post it is on.
#[derive(Clone, Copy, Debug, PartialEq, Eq)]
pub struct AddCommentContext {
    pub program_id: Address,
    pub comment_author: Address,
    pub comment: Address,
    pub tweet: Address,
}

/// The seed parts of the address of a comment: the seed tag, the author, the
/// hash of the content, and the post.
pub open spec fn comment_seeds(author: Seq<u8>, content: Seq<u8>, tweet: Seq<u8>) -> Seq<Seq<u8>> {
    seq![comment_seed(), author, sha256(content), tweet]
}

/// What `add_comment` does to a ledger in `state`, where `found` is what
/// deriving the address of the comment gave.
pub open spec fn add_comment_outcome(
    state: LedgerView,
    ctx: AddCommentContext,
    content: Seq<u8>,
    found: Option<(Seq<u8>, u8)>,
) -> Result<LedgerView, Error> {
    if content.len() > COMMENT_LENGTH {
        Err(Error::ContentTooLong)
    } else {
        match verified_bump(ctx.comment@, found) {
            Err(e) => Err(e),
            Ok(bump) => match owned_outcome(state, ctx.tweet@, ctx.program_id@, tweet_tag()) {
                Err(e) => Err(e),
                Ok(post) => if tweet_decoded(post) is None {
                    Err(Error::LayoutMismatch)
                } else {
                    create_with_outcome(
                        state,
                        ctx.comment@,
                        ctx.program_id@,
                        ctx.comment_author@,
                        COMMENT_SIZE as nat,
                        comment_tag(),
                        comment_encoded(
                            CommentView {
                                comment_author: ctx.comment_author@,
                                parent_tweet: ctx.tweet@,
                                content,
                                bump,
                            },
                        ),
                    )
                },
            },
        }
    }
}

/// The seed parts of the address of the comment that `author` makes with
/// `content` on `tweet`.
pub fn comment_seed_parts(author: &Address, content: &[u8], tweet: &Address) -> (seeds: Vec<Vec<u8>>)
    ensures
        parts_of(seeds@) == comment_seeds(author@, content@, tweet@),
{
    let seeds: Vec<Vec<u8>> = vec![
        comment_seed_bytes(),
        author.to_vec(),
        content_hash(content),
        tweet.to_vec(),
    ];
    assert(parts_of(seeds@) =~= comment_seeds(author@, content@, tweet@));
    seeds
}

/// Adds a comment at the address that `found` verifies: the content is at
/// most 500 bytes, the post is one of the program's, and the author pays for
/// the record, which holds author, post, content and disambiguation byte.
pub fn add_comment_at(
    ledger: &mut Ledger,
    ctx: &AddCommentContext,
    comment_content: &[u8],
    found: Option<(Address, u8)>,
) -> (r: Result<(), Error>)
    requires
        old(ledger).wf(),
    ensures
        final(ledger).wf(),
        settled(
            old(ledger)@,
            final(ledger)@,
            r,
            add_comment_outcome(old(ledger)@, *ctx, comment_content@, found_view(found)),
        ),
{
    if comment_content.len() > COMMENT_LENGTH {
        return Err(Error::ContentTooLong);
    }
    let bump = match verify_address(&ctx.comment, found) {
        Err(e) => {
            return Err(e);
        },
        Ok(bump) => bump,
    };
    let post = match ledger.read_owned(&ctx.tweet, &ctx.program_id, &tweet_tag_bytes()) {
        Err(e) => {
            return Err(e);
        },
        Ok(post) => post,
    };
    if Tweet::decode(post.as_slice()).is_none() {
        return Err(Error::LayoutMismatch);
    }
    let comment = Comment {
        comment_author: ctx.comment_author,
        parent_tweet: ctx.tweet,
        content: get_raw(comment_content, 0, comment_content.len()),
        bump,
    };
    assert(comment.content@ =~= comment_content@);
    let payload = match comment.encode() {
        None => {
            return Err(Error::ContentTooLong);
        },
        Some(payload) => payload,
    };
    proof {
        lemma_comment_round_trip(comment@, Seq::empty());
    }
    let created = ledger.create_with(
        &ctx.comment,
        &ctx.program_id,
        &ctx.comment_author,
        COMMENT_SIZE,
        &comment_tag_bytes(),
        payload.as_slice(),
    );
    match created {
        Ok(_) => Ok(()),
        Err(e) => Err(e),
    }
}

/// Adds a comment to a post: the supplied address has to be the one derived
/// from the author, the hash of the content, and the post.
pub fn add_comment(ledger: &mut Ledger, ctx: &AddCommentContext, comment_content: &[u8]) -> (r:
    Result<(), Error>)
    requires
        old(ledger).wf(),
    ensures
        final(ledger).wf(),
        settled(
            old(ledger)@,
            final(ledger)@,
            r,
            add_comment_outcome(
                old(ledger)@,
                *ctx,
                comment_content@,
                derived(
                    comment_seeds(ctx.comment_author@, comment_content@, ctx.tweet@),
                    ctx.program_id@,
                ),
            ),
        ),
{
    if comment_content.len() > COMMENT_LENGTH {
        return Err(Error::ContentTooLong);
    }
    let seeds = comment_seed_parts(&ctx.comment_author, comment_content, &ctx.tweet);
    let found = crate::address::derive(&seeds, &ctx.program_id);
    add_comment_at(ledger, ctx, comment_content, found)
}

} // verus!
