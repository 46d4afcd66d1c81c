//! The schemas of the comment and reaction service: posts, comments and
//! reactions, and how each is laid out behind the tag of its record.

use crate::address::Address;
use crate::layout::{
    get_address, get_raw, get_u32, get_u64, lemma_u32_round_trip, lemma_u64_round_trip, prefixed,
    put_address, put_bytes, put_u64, u32_from_le, u64_from_le, u64_le,
};
use vstd::prelude::*;

verus! {

/// Seed tag of the address of a comment.
pub open spec fn comment_seed() -> Seq<u8> {
    seq![67u8, 79, 77, 77, 69, 78, 84, 95, 83, 69, 69, 68]
}

/// Seed tag of the address of a reaction.
pub open spec fn reaction_seed() -> Seq<u8> {
    seq![84u8, 87, 69, 69, 84, 95, 82, 69, 65, 67, 84, 73, 79, 78, 95, 83, 69, 69, 68]
}

/// Layout tag of a post.
pub open spec fn tweet_tag() -> Seq<u8> {
    seq![229u8, 13, 110, 58, 118, 6, 20, 79]
}

/// Layout tag of a comment.
pub open spec fn comment_tag() -> Seq<u8> {
    seq![150u8, 135, 96, 244, 55, 199, 50, 65]
}

/// Layout tag of a reaction.
pub open spec fn reaction_tag() -> Seq<u8> {
    seq![226u8, 61, 100, 191, 223, 221, 142, 139]
}

/// Largest length of the content of a comment, in bytes.
pub const COMMENT_LENGTH: usize = 500;

/// Size of the record of a comment: tag, two identities, the content at its
/// largest behind its length, and the disambiguation byte.
pub const COMMENT_SIZE: usize = 577;

/// Size of the record of a reaction: tag, two identities, the kind, and the
/// disambiguation byte.
pub const REACTION_SIZE: usize = 74;

/// The seed tag of the address of a comment: the text `COMMENT_SEED`.
pub fn comment_seed_bytes() -> (seed: Vec<u8>)
    ensures
        seed@ == comment_seed(),
{
    let seed: Vec<u8> = vec![67u8, 79, 77, 77, 69, 78, 84, 95, 83, 69, 69, 68];
    assert(seed@ =~= comment_seed());
    seed
}

/// The seed tag of the address of a reaction: the text
/// `TWEET_REACTION_SEED`.
pub fn reaction_seed_bytes() -> (seed: Vec<u8>)
    ensures
        seed@ == reaction_seed(),
{
    let seed: Vec<u8> = vec![
        84u8, 87, 69, 69, 84, 95, 82, 69, 65, 67, 84, 73, 79, 78, 95, 83, 69, 69, 68,
    ];
    assert(seed@ =~= reaction_seed());
    seed
}

/// The layout tag of a post.
pub fn tweet_tag_bytes() -> (tag: [u8; 8])
    ensures
        tag@ == tweet_tag(),
{
    let tag: [u8; 8] = [229u8, 13, 110, 58, 118, 6, 20, 79];
    assert(tag@ =~= tweet_tag());
    tag
}

/// The layout tag of a comment.
pub fn comment_tag_bytes() -> (tag: [u8; 8])
    ensures
        tag@ == comment_tag(),
{
    let tag: [u8; 8] = [150u8, 135, 96, 244, 55, 199, 50, 65];
    assert(tag@ =~= comment_tag());
    tag
}

/// The layout tag of a reaction.
pub fn reaction_tag_bytes() -> (tag: [u8; 8])
    ensures
        tag@ == reaction_tag(),
{
    let tag: [u8; 8] = [226u8, 61, 100, 191, 223, 221, 142, 139];
    assert(tag@ =~= reaction_tag());
    tag
}

/// The kind of a reaction.
#[derive(Clone, Copy, Debug, PartialEq, Eq)]
pub enum ReactionType {
    Like,
    Dislike,
}

/// The byte that stands for a kind of reaction.
pub open spec fn kind_byte(kind: ReactionType) -> u8 {
    match kind {
        ReactionType::Like => 0,
        ReactionType::Dislike => 1,
    }
}

/// A post: its author, its content, and how many like and dislike it.
#[derive(Debug, PartialEq, Eq)]
pub struct Tweet {
    pub tweet_author: Address,
    pub content: Vec<u8>,
    pub likes: u64,
    pub dislikes: u64,
}

pub struct TweetView {
    pub tweet_author: Seq<u8>,
    pub content: Seq<u8>,
    pub likes: u64,
    pub dislikes: u64,
}

impl View for Tweet {
    type V = TweetView;

    open spec fn view(&self) -> TweetView {
        TweetView {
            tweet_author: self.tweet_author@,
            content: self.content@,
            likes: self.likes,
            dislikes: self.dislikes,
        }
    }
}

/// A comment: its author, the post it is on, its content, and the
/// disambiguation byte of its address.
#[derive(Debug, PartialEq, Eq)]
pub struct Comment {
    pub comment_author: Address,
    pub parent_tweet: Address,
    pub content: Vec<u8>,
    pub bump: u8,
}

pub struct CommentView {
    pub comment_author: Seq<u8>,
    pub parent_tweet: Seq<u8>,
    pub content: Seq<u8>,
    pub bump: u8,
}

impl View for Comment {
    type V = CommentView;

    open spec fn view(&self) -> CommentView {
        CommentView {
            comment_author: self.comment_author@,
            parent_tweet: self.parent_tweet@,
            content: self.content@,
            bump: self.bump,
        }
    }
}

/// A reaction: its author, the post it is on, its kind, and the
/// disambiguation byte of its address.
#[derive(Clone, Copy, Debug, PartialEq, Eq)]
pub struct Reaction {
    pub reaction_author: Address,
    pub parent_tweet: Address,
    pub reaction: ReactionType,
    pub bump: u8,
}

pub struct ReactionView {
    pub reaction_author: Seq<u8>,
    pub parent_tweet: Seq<u8>,
    pub reaction: ReactionType,
    pub bump: u8,
}

impl View for Reaction {
    type V = ReactionView;

    open spec fn view(&self) -> ReactionView {
        ReactionView {
            reaction_author: self.reaction_author@,
            parent_tweet: self.parent_tweet@,
            reaction: self.reaction,
            bump: self.bump,
        }
    }
}

/// The bytes of a post behind its tag: author, content behind its length,
/// likes, dislikes.
pub open spec fn tweet_encoded(t: TweetView) -> Seq<u8> {
    t.tweet_author + prefixed(t.content) + u64_le(t.likes) + u64_le(t.dislikes)
}

/// The post that the bytes behind a tag begin with, if they begin with one.
pub open spec fn tweet_decoded(p: Seq<u8>) -> Option<TweetView> {
    if p.len() < 36 {
        None
    } else {
        let n = u32_from_le(p.subrange(32, 36)) as int;
        if p.len() < 52 + n {
            None
        } else {
            Some(
                TweetView {
                    tweet_author: p.subrange(0, 32),
                    content: p.subrange(36, 36 + n),
                    likes: u64_from_le(p.subrange(36 + n, 44 + n)),
                    dislikes: u64_from_le(p.subrange(44 + n, 52 + n)),
                },
            )
        }
    }
}

/// The bytes of a comment behind its tag: author, post, content behind its
/// length, disambiguation byte.
pub open spec fn comment_encoded(c: CommentView) -> Seq<u8> {
    c.comment_author + c.parent_tweet + prefixed(c.content) + seq![c.bump]
}

/// The comment that the bytes behind a tag begin with, if they begin with one
/// whose content is within the bound.
pub open spec fn comment_decoded(p: Seq<u8>) -> Option<CommentView> {
    if p.len() < 68 {
        None
    } else {
        let n = u32_from_le(p.subrange(64, 68)) as int;
        if n > COMMENT_LENGTH || p.len() < 69 + n {
            None
        } else {
            Some(
                CommentView {
                    comment_author: p.subrange(0, 32),
                    parent_tweet: p.subrange(32, 64),
                    content: p.subrange(68, 68 + n),
                    bump: p[68 + n],
                },
            )
        }
    }
}

/// The bytes of a reaction behind its tag: author, post, kind,
/// disambiguation byte.
pub open spec fn reaction_encoded(r: ReactionView) -> Seq<u8> {
    r.reaction_author + r.parent_tweet + seq![kind_byte(r.reaction), r.bump]
}

/// The reaction that the bytes behind a tag begin with, if they begin with
/// one.
pub open spec fn reaction_decoded(p: Seq<u8>) -> Option<ReactionView> {
    if p.len() < 66 || p[64] > 1 {
        None
    } else {
        Some(
            ReactionView {
                reaction_author: p.subrange(0, 32),
                parent_tweet: p.subrange(32, 64),
                reaction: if p[64] == 0 {
                    ReactionType::Like
                } else {
                    ReactionType::Dislike
                },
                bump: p[65],
            },
        )
    }
}

/// A post is read back from its bytes, whatever follows them.
pub proof fn lemma_tweet_round_trip(t: TweetView, rest: Seq<u8>)
    requires
        t.tweet_author.len() == 32,
        t.content.len() <= u32::MAX,
    ensures
        tweet_encoded(t).len() == 52 + t.content.len(),
        tweet_decoded(tweet_encoded(t) + rest) == Some(t),
{
    let p = tweet_encoded(t) + rest;
    let n = t.content.len() as int;
    lemma_u32_round_trip(n as u32);
    lemma_u64_round_trip(t.likes);
    lemma_u64_round_trip(t.dislikes);
    assert(p.subrange(0, 32) =~= t.tweet_author);
    assert(p.subrange(32, 36) =~= crate::layout::u32_le(n as u32));
    assert(p.subrange(36, 36 + n) =~= t.content);
    assert(p.subrange(36 + n, 44 + n) =~= u64_le(t.likes));
    assert(p.subrange(44 + n, 52 + n) =~= u64_le(t.dislikes));
}

/// A comment whose content is within the bound is read back from its bytes,
/// whatever follows them.
pub proof fn lemma_comment_round_trip(c: CommentView, rest: Seq<u8>)
    requires
        c.comment_author.len() == 32,
        c.parent_tweet.len() == 32,
        c.content.len() <= COMMENT_LENGTH,
    ensures
        comment_encoded(c).len() == 69 + c.content.len(),
        comment_decoded(comment_encoded(c) + rest) == Some(c),
{
    let p = comment_encoded(c) + rest;
    let n = c.content.len() as int;
    lemma_u32_round_trip(n as u32);
    assert(p.subrange(0, 32) =~= c.comment_author);
    assert(p.subrange(32, 64) =~= c.parent_tweet);
    assert(p.subrange(64, 68) =~= crate::layout::u32_le(n as u32));
    assert(p.subrange(68, 68 + n) =~= c.content);
    assert(p[68 + n] == c.bump);
}

/// A reaction is read back from its bytes, whatever follows them.
pub proof fn lemma_reaction_round_trip(r: ReactionView, rest: Seq<u8>)
    requires
        r.reaction_author.len() == 32,
        r.parent_tweet.len() == 32,
    ensures
        reaction_encoded(r).len() == 66,
        reaction_decoded(reaction_encoded(r) + rest) == Some(r),
{
    let p = reaction_encoded(r) + rest;
    assert(p.subrange(0, 32) =~= r.reaction_author);
    assert(p.subrange(32, 64) =~= r.parent_tweet);
    assert(p[64] == kind_byte(r.reaction));
    assert(p[65] == r.bump);
}

impl Tweet {
    /// The bytes of the post, unless its content is too long for a 4-byte
    /// length.
    pub fn encode(&self) -> (r: Option<Vec<u8>>)
        ensures
            match r {
                Some(bytes) => self.content@.len() <= u32::MAX && bytes@ == tweet_encoded(self@),
                None => self.content@.len() > u32::MAX,
            },
    {
        if self.content.len() > 0xffff_ffff {
            return None;
        }
        let mut out: Vec<u8> = Vec::new();
        put_address(&mut out, &self.tweet_author);
        put_bytes(&mut out, self.content.as_slice());
        put_u64(&mut out, self.likes);
        put_u64(&mut out, self.dislikes);
        assert(out@ =~= tweet_encoded(self@));
        Some(out)
    }

    /// The post that the bytes begin with, if they begin with one.
    pub fn decode(payload: &[u8]) -> (r: Option<Tweet>)
        ensures
            match r {
                Some(t) => tweet_decoded(payload@) == Some(t@),
                None => tweet_decoded(payload@) is None,
            },
    {
        let len: usize = payload.len();
        if len < 36 {
            return None;
        }
        let n: usize = get_u32(payload, 32) as usize;
        if len < 52 || len - 52 < n {
            return None;
        }
        Some(
            Tweet {
                tweet_author: get_address(payload, 0),
                content: get_raw(payload, 36, 36 + n),
                likes: get_u64(payload, 36 + n),
                dislikes: get_u64(payload, 44 + n),
            },
        )
    }

    /// Counts one more reaction of the kind; a count that is full stays full.
    pub fn add_reaction(&mut self, kind: ReactionType)
        ensures
            final(self)@ == reacted(old(self)@, kind),
    {
        match kind {
            ReactionType::Like => {
                self.likes = self.likes.saturating_add(1);
            },
            ReactionType::Dislike => {
                self.dislikes = self.dislikes.saturating_add(1);
            },
        }
    }

    /// Counts one reaction of the kind less; a count of zero stays zero.
    pub fn remove_reaction(&mut self, kind: ReactionType)
        ensures
            final(self)@ == unreacted(old(self)@, kind),
    {
        match kind {
            ReactionType::Like => {
                self.likes = self.likes.saturating_sub(1);
            },
            ReactionType::Dislike => {
                self.dislikes = self.dislikes.saturating_sub(1);
            },
        }
    }
}

/// A post after one more reaction of the kind.
pub open spec fn reacted(t: TweetView, kind: ReactionType) -> TweetView {
    match kind {
        ReactionType::Like => TweetView {
            likes: if t.likes < u64::MAX {
                (t.likes + 1) as u64
            } else {
                t.likes
            },
            ..t
        },
        ReactionType::Dislike => TweetView {
            dislikes: if t.dislikes < u64::MAX {
                (t.dislikes + 1) as u64
            } else {
                t.dislikes
            },
            ..t
        },
    }
}

/// A post after one reaction of the kind less.
pub open spec fn unreacted(t: TweetView, kind: ReactionType) -> TweetView {
    match kind {
        ReactionType::Like => TweetView {
            likes: if t.likes > 0 {
                (t.likes - 1) as u64
            } else {
                0
            },
            ..t
        },
        ReactionType::Dislike => TweetView {
            dislikes: if t.dislikes > 0 {
                (t.dislikes - 1) as u64
            } else {
                0
            },
            ..t
        },
    }
}

/// The counts of a post saturate: one reaction more never wraps a full count
/// to a small one, one reaction less never wraps a count of zero to a large
/// one, and the other count, the author and the content stay.
pub proof fn lemma_counts_saturate(t: TweetView, kind: ReactionType)
    ensures
        reacted(t, kind).likes >= t.likes,
        reacted(t, kind).dislikes >= t.dislikes,
        unreacted(t, kind).likes <= t.likes,
        unreacted(t, kind).dislikes <= t.dislikes,
        t.likes == 0 ==> unreacted(t, kind).likes == 0,
        t.dislikes == 0 ==> unreacted(t, kind).dislikes == 0,
        t.likes == u64::MAX ==> reacted(t, kind).likes == u64::MAX,
        t.dislikes == u64::MAX ==> reacted(t, kind).dislikes == u64::MAX,
        kind == ReactionType::Like ==> reacted(t, kind).dislikes == t.dislikes && unreacted(
            t,
            kind,
        ).dislikes == t.dislikes,
        kind == ReactionType::Dislike ==> reacted(t, kind).likes == t.likes && unreacted(
            t,
            kind,
        ).likes == t.likes,
        reacted(t, kind).content == t.content && unreacted(t, kind).content == t.content,
        reacted(t, kind).tweet_author == t.tweet_author && unreacted(t, kind).tweet_author
            == t.tweet_author,
{
}

impl Comment {
    /// The bytes of the comment, unless its content is beyond the bound.
    pub fn encode(&self) -> (r: Option<Vec<u8>>)
        ensures
            match r {
                Some(bytes) => self.content@.len() <= COMMENT_LENGTH && bytes@ == comment_encoded(self@),
                None => self.content@.len() > COMMENT_LENGTH,
            },
    {
        if self.content.len() > COMMENT_LENGTH {
            return None;
        }
        let mut out: Vec<u8> = Vec::new();
        put_address(&mut out, &self.comment_author);
        put_address(&mut out, &self.parent_tweet);
        put_bytes(&mut out, self.content.as_slice());
        out.push(self.bump);
        assert(out@ =~= comment_encoded(self@));
        Some(out)
    }

    /// The comment that the bytes begin with, if they begin with one whose
    /// content is within the bound.
    pub fn decode(payload: &[u8]) -> (r: Option<Comment>)
        ensures
            match r {
                Some(c) => comment_decoded(payload@) == Some(c@),
                None => comment_decoded(payload@) is None,
            },
    {
        let len: usize = payload.len();
        if len < 68 {
            return None;
        }
        let n: usize = get_u32(payload, 64) as usize;
        if n > COMMENT_LENGTH || len < 69 + n {
            return None;
        }
        Some(
            Comment {
                comment_author: get_address(payload, 0),
                parent_tweet: get_address(payload, 32),
                content: get_raw(payload, 68, 68 + n),
                bump: payload[68 + n],
            },
        )
    }
}

impl Reaction {
    /// The bytes of the reaction.
    pub fn encode(&self) -> (bytes: Vec<u8>)
        ensures
            bytes@ == reaction_encoded(self@),
    {
        let mut out: Vec<u8> = Vec::new();
        put_address(&mut out, &self.reaction_author);
        put_address(&mut out, &self.parent_tweet);
        match self.reaction {
            ReactionType::Like => out.push(0),
            ReactionType::Dislike => out.push(1),
        }
        out.push(self.bump);
        assert(out@ =~= reaction_encoded(self@));
        out
    }

    /// The reaction that the bytes begin with, if they begin with one.
    pub fn decode(payload: &[u8]) -> (r: Option<Reaction>)
        ensures
            match r {
                Some(x) => reaction_decoded(payload@) == Some(x@),
                None => reaction_decoded(payload@) is None,
            },
    {
        if payload.len() < 66 || payload[64] > 1 {
            return None;
        }
        let reaction = if payload[64] == 0 {
            ReactionType::Like
        } else {
            ReactionType::Dislike
        };
        Some(
            Reaction {
                reaction_author: get_address(payload, 0),
                parent_tweet: get_address(payload, 32),
                reaction,
                bump: payload[65],
            },
        )
    }
}

} // verus!
