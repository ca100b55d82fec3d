//! The records that accounts hold: profiles, posts and communities, each
//! with the bytes it is stored as.

use crate::address::Pubkey;
use crate::error::ErrorKind;
use crate::wire::{
    bool_bytes, i64_bytes, lemma_regroup, lemma_take_bool, lemma_take_i64, lemma_take_key, lemma_take_text,
    lemma_take_texts, lemma_take_u64, lemma_take_u8, put_bool, put_i64, put_key, put_text,
    put_texts, put_u64, read_bool, read_i64, read_key, read_text, read_texts, read_u64, read_u8,
    reads, rest_of, store, stored, take_bool, take_i64, take_key, take_text, take_texts, take_u64,
    take_u8, text_bytes, text_fits, text_len_fits, texts_bytes, texts_fit, texts_len_fit,
    u64_bytes, value_of, zeroed, zeros,
};
use crate::wire::{
    lemma_taken_text_fits, lemma_taken_text_len, lemma_taken_texts_fit, lemma_taken_texts_len, lemma_zero_fields, lemma_zeroed_split,
    lemma_text_bytes_len, lemma_texts_bytes_len, lemma_widths, lemma_zeros_add, texts_body,
};
use vstd::utf8::encode_utf8;
use vstd::prelude::*;

verus! {

// ---------------------------------------------------------------------
// Credit rating bands
// ---------------------------------------------------------------------

/// Credit ratings carry two implied decimal digits. The bands name ranges
/// of the score for readers; no command acts on them.
pub const UCR_TOP_CONTRIBUTOR: i64 = 420;

pub const UCR_VALUABLE_CONTRIBUTOR: i64 = 69;

pub const UCR_AVERAGE_CONTRIBUTOR: i64 = 1;

pub const UCR_LOW_VALUE_CONTRIBUTOR: i64 = -3;

pub const UCR_SPAM_USER: i64 = -10;

/// Share of likes, in percent, from which a profile counts as verified.
pub const VERIFICATION_THRESHOLD: u64 = 70;

/// The credit rating that a new profile starts with.
pub const UCR_BASELINE: u64 = 100;

// ---------------------------------------------------------------------
// Rating tiers
// ---------------------------------------------------------------------

/// The tier of a post, a step function of its likes.
#[derive(Clone, Copy, Debug, PartialEq, Eq, Structural)]
pub enum PostRating {
    /// Fewer than 5 likes.
    Unrated,
    /// 5 likes and more.
    Bronze,
    /// 20 likes and more.
    Silver,
    /// 50 likes and more.
    Gold,
    /// 150 likes and more.
    Platinum,
    /// 500 likes and more.
    Diamond,
    /// 1000 likes and more.
    Ace,
    /// 1,000,000 likes and more.
    Conqueror,
}

impl View for PostRating {
    type V = PostRating;

    open spec fn view(&self) -> PostRating {
        *self
    }
}

impl DeepView for PostRating {
    type V = PostRating;

    open spec fn deep_view(&self) -> PostRating {
        *self
    }
}

impl PostRating {
    /// The tier that a number of likes earns.
    pub open spec fn tier(likes: u64) -> PostRating {
        if likes < 5 {
            PostRating::Unrated
        } else if likes < 20 {
            PostRating::Bronze
        } else if likes < 50 {
            PostRating::Silver
        } else if likes < 150 {
            PostRating::Gold
        } else if likes < 500 {
            PostRating::Platinum
        } else if likes < 1000 {
            PostRating::Diamond
        } else if likes < 1_000_000 {
            PostRating::Ace
        } else {
            PostRating::Conqueror
        }
    }

    /// The place of the tier in the order of tiers, which is also the byte
    /// it is stored as.
    pub open spec fn rank(self) -> u8 {
        match self {
            PostRating::Unrated => 0,
            PostRating::Bronze => 1,
            PostRating::Silver => 2,
            PostRating::Gold => 3,
            PostRating::Platinum => 4,
            PostRating::Diamond => 5,
            PostRating::Ace => 6,
            PostRating::Conqueror => 7,
        }
    }

    /// The tier of a rank, where there is one.
    pub open spec fn of_rank(rank: u8) -> Option<PostRating> {
        if rank == 0 {
            Some(PostRating::Unrated)
        } else if rank == 1 {
            Some(PostRating::Bronze)
        } else if rank == 2 {
            Some(PostRating::Silver)
        } else if rank == 3 {
            Some(PostRating::Gold)
        } else if rank == 4 {
            Some(PostRating::Platinum)
        } else if rank == 5 {
            Some(PostRating::Diamond)
        } else if rank == 6 {
            Some(PostRating::Ace)
        } else if rank == 7 {
            Some(PostRating::Conqueror)
        } else {
            None
        }
    }

    /// The name of the tier.
    pub open spec fn label(self) -> Seq<char> {
        match self {
            PostRating::Unrated => "none"@,
            PostRating::Bronze => "bronze"@,
            PostRating::Silver => "silver"@,
            PostRating::Gold => "gold"@,
            PostRating::Platinum => "platinum"@,
            PostRating::Diamond => "diamond"@,
            PostRating::Ace => "ace"@,
            PostRating::Conqueror => "conqueror"@,
        }
    }

    /// The tier that `likes` likes earn.
    pub fn from_likes(likes: u64) -> (r: PostRating)
        ensures
            r == PostRating::tier(likes),
    {
        if likes >= 1_000_000 {
            PostRating::Conqueror
        } else if likes >= 1_000 {
            PostRating::Ace
        } else if likes >= 500 {
            PostRating::Diamond
        } else if likes >= 150 {
            PostRating::Platinum
        } else if likes >= 50 {
            PostRating::Gold
        } else if likes >= 20 {
            PostRating::Silver
        } else if likes >= 5 {
            PostRating::Bronze
        } else {
            PostRating::Unrated
        }
    }

    /// The name of the tier, in lower case.
    pub fn to_string(&self) -> (r: &'static str)
        ensures
            r@ == self.label(),
    {
        match self {
            PostRating::Unrated => "none",
            PostRating::Bronze => "bronze",
            PostRating::Silver => "silver",
            PostRating::Gold => "gold",
            PostRating::Platinum => "platinum",
            PostRating::Diamond => "diamond",
            PostRating::Ace => "ace",
            PostRating::Conqueror => "conqueror",
        }
    }

    /// The byte that the tier is stored as.
    pub fn to_rank(self) -> (r: u8)
        ensures
            r == self.rank(),
    {
        match self {
            PostRating::Unrated => 0,
            PostRating::Bronze => 1,
            PostRating::Silver => 2,
            PostRating::Gold => 3,
            PostRating::Platinum => 4,
            PostRating::Diamond => 5,
            PostRating::Ace => 6,
            PostRating::Conqueror => 7,
        }
    }

    /// The tier that a byte stands for.
    pub fn from_rank(rank: u8) -> (r: Option<PostRating>)
        ensures
            r == PostRating::of_rank(rank),
    {
        match rank {
            0 => Some(PostRating::Unrated),
            1 => Some(PostRating::Bronze),
            2 => Some(PostRating::Silver),
            3 => Some(PostRating::Gold),
            4 => Some(PostRating::Platinum),
            5 => Some(PostRating::Diamond),
            6 => Some(PostRating::Ace),
            7 => Some(PostRating::Conqueror),
            _ => None,
        }
    }
}

/// More likes never earn a lower tier.
pub proof fn lemma_tier_monotonic(fewer: u64, more: u64)
    requires
        fewer <= more,
    ensures
        PostRating::tier(fewer).rank() <= PostRating::tier(more).rank(),
{
}

/// The tier changes exactly at 5, 20, 50, 150, 500, 1000 and 1,000,000
/// likes.
pub proof fn lemma_tier_boundaries()
    ensures
        PostRating::tier(0) == PostRating::Unrated,
        PostRating::tier(4) == PostRating::Unrated,
        PostRating::tier(5) == PostRating::Bronze,
        PostRating::tier(19) == PostRating::Bronze,
        PostRating::tier(20) == PostRating::Silver,
        PostRating::tier(49) == PostRating::Silver,
        PostRating::tier(50) == PostRating::Gold,
        PostRating::tier(149) == PostRating::Gold,
        PostRating::tier(150) == PostRating::Platinum,
        PostRating::tier(499) == PostRating::Platinum,
        PostRating::tier(500) == PostRating::Diamond,
        PostRating::tier(999) == PostRating::Diamond,
        PostRating::tier(1000) == PostRating::Ace,
        PostRating::tier(999_999) == PostRating::Ace,
        PostRating::tier(1_000_000) == PostRating::Conqueror,
        PostRating::tier(u64::MAX) == PostRating::Conqueror,
{
}

/// A tier is stored as one byte, its rank.
pub open spec fn rating_bytes(rating: PostRating) -> Seq<u8> {
    seq![rating.rank()]
}

/// Takes a tier off the front; a byte above 7 is refused.
pub open spec fn take_rating(b: Seq<u8>) -> Option<(PostRating, Seq<u8>)> {
    match take_u8(b) {
        None => None,
        Some((rank, rest)) => match PostRating::of_rank(rank) {
            None => None,
            Some(rating) => Some((rating, rest)),
        },
    }
}

pub proof fn lemma_take_rating(rating: PostRating, rest: Seq<u8>)
    ensures
        take_rating(rating_bytes(rating) + rest) == Some((rating, rest)),
{
    lemma_take_u8(rating.rank(), rest);
}

/// Appends a tier.
pub fn put_rating(out: &mut Vec<u8>, rating: PostRating)
    ensures
        final(out)@ == old(out)@ + rating_bytes(rating),
{
    out.push(rating.to_rank());
    assert(out@ =~= old(out)@ + rating_bytes(rating));
}

/// Reads the tier at `pos`.
pub fn read_rating(data: &[u8], pos: usize) -> (r: Option<(PostRating, usize)>)
    ensures
        reads(data@, pos, r, take_rating(data@.skip(pos as int))),
{
    let (rank, next) = read_u8(data, pos)?;
    let rating = PostRating::from_rank(rank)?;
    Some((rating, next))
}

// ---------------------------------------------------------------------
// Profiles
// ---------------------------------------------------------------------

/// The record of a user: one for each identity.
#[derive(Clone, Debug, PartialEq, Eq)]
pub struct Profile {
    pub is_initialized: bool,
    pub owner: Pubkey,
    pub username: String,
    pub bio: String,
    pub profile_image: String,
    pub cover_image: String,
    pub created_at: u64,
    pub followers_count: u64,
    pub following_count: u64,
    /// The credit rating, with two implied decimal digits.
    pub user_credit_rating: i64,
    pub posts_count: u64,
    pub last_post_timestamp: u64,
    pub daily_post_count: u64,
    pub is_verified: bool,
}

/// A profile as a mathematical value.
pub struct ProfileView {
    pub is_initialized: bool,
    pub owner: Seq<u8>,
    pub username: Seq<char>,
    pub bio: Seq<char>,
    pub profile_image: Seq<char>,
    pub cover_image: Seq<char>,
    pub created_at: u64,
    pub followers_count: u64,
    pub following_count: u64,
    pub user_credit_rating: i64,
    pub posts_count: u64,
    pub last_post_timestamp: u64,
    pub daily_post_count: u64,
    pub is_verified: bool,
}

impl View for Profile {
    type V = ProfileView;

    open spec fn view(&self) -> ProfileView {
        ProfileView {
            is_initialized: self.is_initialized,
            owner: self.owner@,
            username: self.username@,
            bio: self.bio@,
            profile_image: self.profile_image@,
            cover_image: self.cover_image@,
            created_at: self.created_at,
            followers_count: self.followers_count,
            following_count: self.following_count,
            user_credit_rating: self.user_credit_rating,
            posts_count: self.posts_count,
            last_post_timestamp: self.last_post_timestamp,
            daily_post_count: self.daily_post_count,
            is_verified: self.is_verified,
        }
    }
}

impl DeepView for Profile {
    type V = ProfileView;

    open spec fn deep_view(&self) -> ProfileView {
        self@
    }
}

impl ProfileView {
    /// The owner is an address.
    pub open spec fn well_formed(self) -> bool {
        self.owner.len() == 32
    }

    /// Every text of the profile can be written.
    pub open spec fn encodable(self) -> bool {
        &&& text_fits(self.username)
        &&& text_fits(self.bio)
        &&& text_fits(self.profile_image)
        &&& text_fits(self.cover_image)
    }

    /// The bytes that the profile is stored as: its fields in the order of
    /// their declaration.
    #[verifier::opaque]
    pub open spec fn bytes(self) -> Seq<u8> {
        bool_bytes(self.is_initialized) + self.owner + text_bytes(self.username) + text_bytes(
            self.bio,
        ) + text_bytes(self.profile_image) + text_bytes(self.cover_image) + u64_bytes(
            self.created_at,
        ) + u64_bytes(self.followers_count) + u64_bytes(self.following_count) + i64_bytes(
            self.user_credit_rating,
        ) + u64_bytes(self.posts_count) + u64_bytes(self.last_post_timestamp) + u64_bytes(
            self.daily_post_count,
        ) + bool_bytes(self.is_verified)
    }

    /// The bytes of the profile, where it can be written.
    pub open spec fn encoding(self) -> Option<Seq<u8>> {
        if self.encodable() {
            Some(self.bytes())
        } else {
            None
        }
    }

    /// Takes a profile off the front of `b`: each field off what the field
    /// before it left, and nothing where one of them cannot be taken.
    #[verifier::opaque]
    pub open spec fn take(b: Seq<u8>) -> Option<(ProfileView, Seq<u8>)> {
        let is_initialized = take_bool(b);
        let owner = take_key(rest_of(is_initialized));
        let username = take_text(rest_of(owner));
        let bio = take_text(rest_of(username));
        let profile_image = take_text(rest_of(bio));
        let cover_image = take_text(rest_of(profile_image));
        let created_at = take_u64(rest_of(cover_image));
        let followers_count = take_u64(rest_of(created_at));
        let following_count = take_u64(rest_of(followers_count));
        let user_credit_rating = take_i64(rest_of(following_count));
        let posts_count = take_u64(rest_of(user_credit_rating));
        let last_post_timestamp = take_u64(rest_of(posts_count));
        let daily_post_count = take_u64(rest_of(last_post_timestamp));
        let is_verified = take_bool(rest_of(daily_post_count));
        if is_initialized is Some && owner is Some && username is Some && bio is Some
            && profile_image is Some && cover_image is Some && created_at is Some
            && followers_count is Some && following_count is Some && user_credit_rating is Some
            && posts_count is Some && last_post_timestamp is Some && daily_post_count is Some
            && is_verified is Some {
            Some(
                (
                    ProfileView {
                        is_initialized: value_of(is_initialized),
                        owner: value_of(owner),
                        username: value_of(username),
                        bio: value_of(bio),
                        profile_image: value_of(profile_image),
                        cover_image: value_of(cover_image),
                        created_at: value_of(created_at),
                        followers_count: value_of(followers_count),
                        following_count: value_of(following_count),
                        user_credit_rating: value_of(user_credit_rating),
                        posts_count: value_of(posts_count),
                        last_post_timestamp: value_of(last_post_timestamp),
                        daily_post_count: value_of(daily_post_count),
                        is_verified: value_of(is_verified),
                    },
                    rest_of(is_verified),
                ),
            )
        } else {
            None
        }
    }

    /// The profile that `b` begins with; what lies behind it is ignored.
    pub open spec fn decode(b: Seq<u8>) -> Option<ProfileView> {
        match ProfileView::take(b) {
            None => None,
            Some((profile, rest)) => Some(profile),
        }
    }
}

impl Profile {
    /// Whether the record was ever written; a fresh buffer of zeros holds
    /// a record that was not.
    pub fn is_initialized(&self) -> (r: bool)
        ensures
            r == self@.is_initialized,
    {
        self.is_initialized
    }

    /// The bytes of the profile, or nothing where one of its texts is too
    /// long to be written.
    pub fn encode(&self) -> (r: Option<Vec<u8>>)
        ensures
            r.deep_view() == self@.encoding(),
    {
        if !text_len_fits(&self.username) || !text_len_fits(&self.bio) || !text_len_fits(
            &self.profile_image,
        ) || !text_len_fits(&self.cover_image) {
            return None;
        }
        let mut out: Vec<u8> = Vec::new();
        put_bool(&mut out, self.is_initialized);
        put_key(&mut out, &self.owner);
        put_text(&mut out, &self.username);
        put_text(&mut out, &self.bio);
        put_text(&mut out, &self.profile_image);
        put_text(&mut out, &self.cover_image);
        put_u64(&mut out, self.created_at);
        put_u64(&mut out, self.followers_count);
        put_u64(&mut out, self.following_count);
        put_i64(&mut out, self.user_credit_rating);
        put_u64(&mut out, self.posts_count);
        put_u64(&mut out, self.last_post_timestamp);
        put_u64(&mut out, self.daily_post_count);
        put_bool(&mut out, self.is_verified);
        proof {
            reveal(ProfileView::bytes);
        }
        assert(out@ =~= self@.bytes());
        assert(out.deep_view() =~= out@);
        Some(out)
    }

    /// The profile that `src` begins with.
    pub fn decode(src: &[u8]) -> (r: Option<Profile>)
        ensures
            r.deep_view() == ProfileView::decode(src@),
            r matches Some(p) ==> p@.encodable() && p@.well_formed(),
    {
        proof {
            reveal(ProfileView::take);
        }
        assert(src@.skip(0) =~= src@);
        let (is_initialized, at) = read_bool(src, 0)?;
        let (owner, at) = read_key(src, at)?;
        let (username, at) = read_text(src, at)?;
        let (bio, at) = read_text(src, at)?;
        let (profile_image, at) = read_text(src, at)?;
        let (cover_image, at) = read_text(src, at)?;
        let (created_at, at) = read_u64(src, at)?;
        let (followers_count, at) = read_u64(src, at)?;
        let (following_count, at) = read_u64(src, at)?;
        let (user_credit_rating, at) = read_i64(src, at)?;
        let (posts_count, at) = read_u64(src, at)?;
        let (last_post_timestamp, at) = read_u64(src, at)?;
        let (daily_post_count, at) = read_u64(src, at)?;
        let (is_verified, at) = read_bool(src, at)?;
        Some(
            Profile {
                is_initialized,
                owner,
                username,
                bio,
                profile_image,
                cover_image,
                created_at,
                followers_count,
                following_count,
                user_credit_rating,
                posts_count,
                last_post_timestamp,
                daily_post_count,
                is_verified,
            },
        )
    }
}

impl ProfileView {
    /// The bytes of the profile in front of `tail`, each field joined to all
    /// that follows it.
    #[verifier::opaque]
    pub open spec fn bytes_before(self, tail: Seq<u8>) -> Seq<u8> {
        bool_bytes(self.is_initialized) + (self.owner + (text_bytes(self.username) + (text_bytes(self.bio) + (text_bytes(self.profile_image) + (text_bytes(self.cover_image) + (u64_bytes(self.created_at) + (u64_bytes(self.followers_count) + (u64_bytes(self.following_count) + (i64_bytes(self.user_credit_rating) + (u64_bytes(self.posts_count) + (u64_bytes(self.last_post_timestamp) + (u64_bytes(self.daily_post_count) + (bool_bytes(self.is_verified) + (tail))))))))))))))
    }
}

/// The bytes of a profile in front of a tail are its fields, one after the
/// other, and then the tail.
proof fn lemma_profile_bytes_before(p: ProfileView, tail: Seq<u8>)
    ensures
        p.bytes() + tail == p.bytes_before(tail),
{
    reveal(ProfileView::bytes);
    reveal(ProfileView::bytes_before);
    let r13 = bool_bytes(p.is_verified) + tail;
    let r12 = u64_bytes(p.daily_post_count) + r13;
    let r11 = u64_bytes(p.last_post_timestamp) + r12;
    let r10 = u64_bytes(p.posts_count) + r11;
    let r9 = i64_bytes(p.user_credit_rating) + r10;
    let r8 = u64_bytes(p.following_count) + r9;
    let r7 = u64_bytes(p.followers_count) + r8;
    let r6 = u64_bytes(p.created_at) + r7;
    let r5 = text_bytes(p.cover_image) + r6;
    let r4 = text_bytes(p.profile_image) + r5;
    let r3 = text_bytes(p.bio) + r4;
    let r2 = text_bytes(p.username) + r3;
    let r1 = p.owner + r2;
    let x1 = bool_bytes(p.is_initialized);
    let x2 = x1 + p.owner;
    let x3 = x2 + text_bytes(p.username);
    let x4 = x3 + text_bytes(p.bio);
    let x5 = x4 + text_bytes(p.profile_image);
    let x6 = x5 + text_bytes(p.cover_image);
    let x7 = x6 + u64_bytes(p.created_at);
    let x8 = x7 + u64_bytes(p.followers_count);
    let x9 = x8 + u64_bytes(p.following_count);
    let x10 = x9 + i64_bytes(p.user_credit_rating);
    let x11 = x10 + u64_bytes(p.posts_count);
    let x12 = x11 + u64_bytes(p.last_post_timestamp);
    let x13 = x12 + u64_bytes(p.daily_post_count);
    lemma_regroup(x13, bool_bytes(p.is_verified), tail);
    lemma_regroup(x12, u64_bytes(p.daily_post_count), r13);
    lemma_regroup(x11, u64_bytes(p.last_post_timestamp), r12);
    lemma_regroup(x10, u64_bytes(p.posts_count), r11);
    lemma_regroup(x9, i64_bytes(p.user_credit_rating), r10);
    lemma_regroup(x8, u64_bytes(p.following_count), r9);
    lemma_regroup(x7, u64_bytes(p.followers_count), r8);
    lemma_regroup(x6, u64_bytes(p.created_at), r7);
    lemma_regroup(x5, text_bytes(p.cover_image), r6);
    lemma_regroup(x4, text_bytes(p.profile_image), r5);
    lemma_regroup(x3, text_bytes(p.bio), r4);
    lemma_regroup(x2, text_bytes(p.username), r3);
    lemma_regroup(x1, p.owner, r2);
}

/// Taking a profile off its bytes gives the profile and leaves the tail.
proof fn lemma_profile_take_before(p: ProfileView, tail: Seq<u8>)
    requires
        p.well_formed(),
        p.encodable(),
    ensures
        ProfileView::take(p.bytes_before(tail)) == Some((p, tail)),
{
    reveal(ProfileView::take);
    reveal(ProfileView::bytes_before);
    let r14 = tail;
    let r13 = bool_bytes(p.is_verified) + r14;
    let r12 = u64_bytes(p.daily_post_count) + r13;
    let r11 = u64_bytes(p.last_post_timestamp) + r12;
    let r10 = u64_bytes(p.posts_count) + r11;
    let r9 = i64_bytes(p.user_credit_rating) + r10;
    let r8 = u64_bytes(p.following_count) + r9;
    let r7 = u64_bytes(p.followers_count) + r8;
    let r6 = u64_bytes(p.created_at) + r7;
    let r5 = text_bytes(p.cover_image) + r6;
    let r4 = text_bytes(p.profile_image) + r5;
    let r3 = text_bytes(p.bio) + r4;
    let r2 = text_bytes(p.username) + r3;
    let r1 = p.owner + r2;
    let r0 = bool_bytes(p.is_initialized) + r1;
    assert(take_bool(r0) == Some((p.is_initialized, r1))) by {
        lemma_take_bool(p.is_initialized, r1);
    }
    assert(take_key(r1) == Some((p.owner, r2))) by {
        lemma_take_key(p.owner, r2);
    }
    assert(take_text(r2) == Some((p.username, r3))) by {
        lemma_take_text(p.username, r3);
    }
    assert(take_text(r3) == Some((p.bio, r4))) by {
        lemma_take_text(p.bio, r4);
    }
    assert(take_text(r4) == Some((p.profile_image, r5))) by {
        lemma_take_text(p.profile_image, r5);
    }
    assert(take_text(r5) == Some((p.cover_image, r6))) by {
        lemma_take_text(p.cover_image, r6);
    }
    assert(take_u64(r6) == Some((p.created_at, r7))) by {
        lemma_take_u64(p.created_at, r7);
    }
    assert(take_u64(r7) == Some((p.followers_count, r8))) by {
        lemma_take_u64(p.followers_count, r8);
    }
    assert(take_u64(r8) == Some((p.following_count, r9))) by {
        lemma_take_u64(p.following_count, r9);
    }
    assert(take_i64(r9) == Some((p.user_credit_rating, r10))) by {
        lemma_take_i64(p.user_credit_rating, r10);
    }
    assert(take_u64(r10) == Some((p.posts_count, r11))) by {
        lemma_take_u64(p.posts_count, r11);
    }
    assert(take_u64(r11) == Some((p.last_post_timestamp, r12))) by {
        lemma_take_u64(p.last_post_timestamp, r12);
    }
    assert(take_u64(r12) == Some((p.daily_post_count, r13))) by {
        lemma_take_u64(p.daily_post_count, r13);
    }
    assert(take_bool(r13) == Some((p.is_verified, r14))) by {
        lemma_take_bool(p.is_verified, r14);
    }
}

impl ProfileView {
    /// The number of bytes that the profile is stored as: 106 for its
    /// fields of fixed width and the lengths in front of the others, and
    /// the bytes of its texts.
    pub open spec fn size(self) -> nat {
        106 + encode_utf8(self.username).len() + encode_utf8(self.bio).len() + encode_utf8(self.profile_image).len() + encode_utf8(self.cover_image).len()
    }
}

/// The bytes of a profile are as many as its size says.
pub proof fn lemma_profile_size(p: ProfileView)
    requires
        p.well_formed(),
    ensures
        p.bytes().len() == p.size(),
{
    reveal(ProfileView::bytes);
    let x1 = bool_bytes(p.is_initialized);
    lemma_widths(p.is_initialized, 0, 0);
    assert(x1.len() == 1);
    let x2 = x1 + p.owner;
    assert(x2.len() == 33);
    let x3 = x2 + text_bytes(p.username);
    lemma_text_bytes_len(p.username);
    assert(x3.len() == 37 + encode_utf8(p.username).len());
    let x4 = x3 + text_bytes(p.bio);
    lemma_text_bytes_len(p.bio);
    assert(x4.len() == 41 + encode_utf8(p.username).len() + encode_utf8(p.bio).len());
    let x5 = x4 + text_bytes(p.profile_image);
    lemma_text_bytes_len(p.profile_image);
    assert(x5.len() == 45 + encode_utf8(p.username).len() + encode_utf8(p.bio).len() + encode_utf8(p.profile_image).len());
    let x6 = x5 + text_bytes(p.cover_image);
    lemma_text_bytes_len(p.cover_image);
    assert(x6.len() == 49 + encode_utf8(p.username).len() + encode_utf8(p.bio).len() + encode_utf8(p.profile_image).len() + encode_utf8(p.cover_image).len());
    let x7 = x6 + u64_bytes(p.created_at);
    lemma_widths(false, p.created_at, 0);
    assert(x7.len() == 57 + encode_utf8(p.username).len() + encode_utf8(p.bio).len() + encode_utf8(p.profile_image).len() + encode_utf8(p.cover_image).len());
    let x8 = x7 + u64_bytes(p.followers_count);
    lemma_widths(false, p.followers_count, 0);
    assert(x8.len() == 65 + encode_utf8(p.username).len() + encode_utf8(p.bio).len() + encode_utf8(p.profile_image).len() + encode_utf8(p.cover_image).len());
    let x9 = x8 + u64_bytes(p.following_count);
    lemma_widths(false, p.following_count, 0);
    assert(x9.len() == 73 + encode_utf8(p.username).len() + encode_utf8(p.bio).len() + encode_utf8(p.profile_image).len() + encode_utf8(p.cover_image).len());
    let x10 = x9 + i64_bytes(p.user_credit_rating);
    lemma_widths(false, 0, p.user_credit_rating);
    assert(x10.len() == 81 + encode_utf8(p.username).len() + encode_utf8(p.bio).len() + encode_utf8(p.profile_image).len() + encode_utf8(p.cover_image).len());
    let x11 = x10 + u64_bytes(p.posts_count);
    lemma_widths(false, p.posts_count, 0);
    assert(x11.len() == 89 + encode_utf8(p.username).len() + encode_utf8(p.bio).len() + encode_utf8(p.profile_image).len() + encode_utf8(p.cover_image).len());
    let x12 = x11 + u64_bytes(p.last_post_timestamp);
    lemma_widths(false, p.last_post_timestamp, 0);
    assert(x12.len() == 97 + encode_utf8(p.username).len() + encode_utf8(p.bio).len() + encode_utf8(p.profile_image).len() + encode_utf8(p.cover_image).len());
    let x13 = x12 + u64_bytes(p.daily_post_count);
    lemma_widths(false, p.daily_post_count, 0);
    assert(x13.len() == 105 + encode_utf8(p.username).len() + encode_utf8(p.bio).len() + encode_utf8(p.profile_image).len() + encode_utf8(p.cover_image).len());
    let x14 = x13 + bool_bytes(p.is_verified);
    lemma_widths(p.is_verified, 0, 0);
    assert(x14.len() == 106 + encode_utf8(p.username).len() + encode_utf8(p.bio).len() + encode_utf8(p.profile_image).len() + encode_utf8(p.cover_image).len());
}

/// A profile that some bytes decode to is well formed and can be written
/// again.
pub proof fn lemma_decoded_profile_valid(b: Seq<u8>)
    ensures
        ProfileView::decode(b) matches Some(p) ==> p.well_formed() && p.encodable(),
{
    reveal(ProfileView::take);
    let is_initialized = take_bool(b);
    let owner = take_key(rest_of(is_initialized));
    let username = take_text(rest_of(owner));
    lemma_taken_text_fits(rest_of(owner));
    let bio = take_text(rest_of(username));
    lemma_taken_text_fits(rest_of(username));
    let profile_image = take_text(rest_of(bio));
    lemma_taken_text_fits(rest_of(bio));
    let cover_image = take_text(rest_of(profile_image));
    lemma_taken_text_fits(rest_of(profile_image));
    let created_at = take_u64(rest_of(cover_image));
    let followers_count = take_u64(rest_of(created_at));
    let following_count = take_u64(rest_of(followers_count));
    let user_credit_rating = take_i64(rest_of(following_count));
    let posts_count = take_u64(rest_of(user_credit_rating));
    let last_post_timestamp = take_u64(rest_of(posts_count));
    let daily_post_count = take_u64(rest_of(last_post_timestamp));
    let is_verified = take_bool(rest_of(daily_post_count));
}

/// A profile that some bytes decode to took no more bytes than there
/// are: the bytes are as many as its size and what was left behind it.
pub proof fn lemma_decoded_profile_fits(b: Seq<u8>)
    ensures
        ProfileView::take(b) matches Some(taken) ==> b.len() == taken.0.size() + taken.1.len(),
        ProfileView::decode(b) matches Some(p) ==> p.size() <= b.len(),
{
    reveal(ProfileView::take);
    let is_initialized = take_bool(b);
    assert(is_initialized is Some ==> b.len() == 1 + rest_of(is_initialized).len());
    let owner = take_key(rest_of(is_initialized));
    assert(is_initialized is Some && owner is Some ==> b.len() == 33 + rest_of(owner).len());
    let username = take_text(rest_of(owner));
    lemma_taken_text_len(rest_of(owner));
    assert(is_initialized is Some && owner is Some && username is Some ==> b.len() == 37 + encode_utf8(value_of(username)).len() + rest_of(username).len());
    let bio = take_text(rest_of(username));
    lemma_taken_text_len(rest_of(username));
    assert(is_initialized is Some && owner is Some && username is Some && bio is Some ==> b.len() == 41 + encode_utf8(value_of(username)).len() + encode_utf8(value_of(bio)).len() + rest_of(bio).len());
    let profile_image = take_text(rest_of(bio));
    lemma_taken_text_len(rest_of(bio));
    assert(is_initialized is Some && owner is Some && username is Some && bio is Some && profile_image is Some ==> b.len() == 45 + encode_utf8(value_of(username)).len() + encode_utf8(value_of(bio)).len() + encode_utf8(value_of(profile_image)).len() + rest_of(profile_image).len());
    let cover_image = take_text(rest_of(profile_image));
    lemma_taken_text_len(rest_of(profile_image));
    assert(is_initialized is Some && owner is Some && username is Some && bio is Some && profile_image is Some && cover_image is Some ==> b.len() == 49 + encode_utf8(value_of(username)).len() + encode_utf8(value_of(bio)).len() + encode_utf8(value_of(profile_image)).len() + encode_utf8(value_of(cover_image)).len() + rest_of(cover_image).len());
    let created_at = take_u64(rest_of(cover_image));
    assert(is_initialized is Some && owner is Some && username is Some && bio is Some && profile_image is Some && cover_image is Some && created_at is Some ==> b.len() == 57 + encode_utf8(value_of(username)).len() + encode_utf8(value_of(bio)).len() + encode_utf8(value_of(profile_image)).len() + encode_utf8(value_of(cover_image)).len() + rest_of(created_at).len());
    let followers_count = take_u64(rest_of(created_at));
    assert(is_initialized is Some && owner is Some && username is Some && bio is Some && profile_image is Some && cover_image is Some && created_at is Some && followers_count is Some ==> b.len() == 65 + encode_utf8(value_of(username)).len() + encode_utf8(value_of(bio)).len() + encode_utf8(value_of(profile_image)).len() + encode_utf8(value_of(cover_image)).len() + rest_of(followers_count).len());
    let following_count = take_u64(rest_of(followers_count));
    assert(is_initialized is Some && owner is Some && username is Some && bio is Some && profile_image is Some && cover_image is Some && created_at is Some && followers_count is Some && following_count is Some ==> b.len() == 73 + encode_utf8(value_of(username)).len() + encode_utf8(value_of(bio)).len() + encode_utf8(value_of(profile_image)).len() + encode_utf8(value_of(cover_image)).len() + rest_of(following_count).len());
    let user_credit_rating = take_i64(rest_of(following_count));
    assert(is_initialized is Some && owner is Some && username is Some && bio is Some && profile_image is Some && cover_image is Some && created_at is Some && followers_count is Some && following_count is Some && user_credit_rating is Some ==> b.len() == 81 + encode_utf8(value_of(username)).len() + encode_utf8(value_of(bio)).len() + encode_utf8(value_of(profile_image)).len() + encode_utf8(value_of(cover_image)).len() + rest_of(user_credit_rating).len());
    let posts_count = take_u64(rest_of(user_credit_rating));
    assert(is_initialized is Some && owner is Some && username is Some && bio is Some && profile_image is Some && cover_image is Some && created_at is Some && followers_count is Some && following_count is Some && user_credit_rating is Some && posts_count is Some ==> b.len() == 89 + encode_utf8(value_of(username)).len() + encode_utf8(value_of(bio)).len() + encode_utf8(value_of(profile_image)).len() + encode_utf8(value_of(cover_image)).len() + rest_of(posts_count).len());
    let last_post_timestamp = take_u64(rest_of(posts_count));
    assert(is_initialized is Some && owner is Some && username is Some && bio is Some && profile_image is Some && cover_image is Some && created_at is Some && followers_count is Some && following_count is Some && user_credit_rating is Some && posts_count is Some && last_post_timestamp is Some ==> b.len() == 97 + encode_utf8(value_of(username)).len() + encode_utf8(value_of(bio)).len() + encode_utf8(value_of(profile_image)).len() + encode_utf8(value_of(cover_image)).len() + rest_of(last_post_timestamp).len());
    let daily_post_count = take_u64(rest_of(last_post_timestamp));
    assert(is_initialized is Some && owner is Some && username is Some && bio is Some && profile_image is Some && cover_image is Some && created_at is Some && followers_count is Some && following_count is Some && user_credit_rating is Some && posts_count is Some && last_post_timestamp is Some && daily_post_count is Some ==> b.len() == 105 + encode_utf8(value_of(username)).len() + encode_utf8(value_of(bio)).len() + encode_utf8(value_of(profile_image)).len() + encode_utf8(value_of(cover_image)).len() + rest_of(daily_post_count).len());
    let is_verified = take_bool(rest_of(daily_post_count));
    assert(is_initialized is Some && owner is Some && username is Some && bio is Some && profile_image is Some && cover_image is Some && created_at is Some && followers_count is Some && following_count is Some && user_credit_rating is Some && posts_count is Some && last_post_timestamp is Some && daily_post_count is Some && is_verified is Some ==> b.len() == 106 + encode_utf8(value_of(username)).len() + encode_utf8(value_of(bio)).len() + encode_utf8(value_of(profile_image)).len() + encode_utf8(value_of(cover_image)).len() + rest_of(is_verified).len());
}

/// Decoding what a profile encodes to gives the profile back, whatever
/// lies behind it in the buffer.
pub proof fn lemma_profile_round_trip(p: ProfileView, tail: Seq<u8>)
    requires
        p.well_formed(),
        p.encodable(),
    ensures
        ProfileView::take(p.bytes() + tail) == Some((p, tail)),
        ProfileView::decode(p.bytes() + tail) == Some(p),
{
    lemma_profile_bytes_before(p, tail);
    lemma_profile_take_before(p, tail);
}

impl ProfileView {
    /// The profile that a fresh buffer holds: not initialized, owned by
    /// the address of zeros, every text empty and every number zero.
    pub open spec fn blank() -> ProfileView {
        ProfileView {
            is_initialized: false,
            owner: zeros(32),
            username: Seq::empty(),
            bio: Seq::empty(),
            profile_image: Seq::empty(),
            cover_image: Seq::empty(),
            created_at: 0,
            followers_count: 0,
            following_count: 0,
            user_credit_rating: 0,
            posts_count: 0,
            last_post_timestamp: 0,
            daily_post_count: 0,
            is_verified: false,
        }
    }
}

/// A buffer of zeros, of 106 bytes or more, decodes to the profile that is
/// not initialized.
pub proof fn lemma_profile_of_zeros(b: Seq<u8>)
    requires
        zeroed(b),
        b.len() >= 106,
    ensures
        ProfileView::decode(b) == Some(ProfileView::blank()),
{
    let p = ProfileView::blank();
    lemma_zero_fields();
    assert(p.bytes() == zeros(106)) by {
        reveal(ProfileView::bytes);
        lemma_zeros_add(1, 32);
        lemma_zeros_add(33, 4);
        lemma_zeros_add(37, 4);
        lemma_zeros_add(41, 4);
        lemma_zeros_add(45, 4);
        lemma_zeros_add(49, 8);
        lemma_zeros_add(57, 8);
        lemma_zeros_add(65, 8);
        lemma_zeros_add(73, 8);
        lemma_zeros_add(81, 8);
        lemma_zeros_add(89, 8);
        lemma_zeros_add(97, 8);
        lemma_zeros_add(105, 1);
    }
    lemma_zeroed_split(b, 106);
    lemma_profile_round_trip(p, b.skip(106));
}

/// Writes the profile over the front of `dst`. A profile that is longer
/// than `dst` is refused, and `dst` is left as it was.
pub fn pack_profile_into_slice(profile: &Profile, dst: &mut [u8]) -> (r: Result<(), ErrorKind>)
    ensures
        match stored(old(dst)@, profile@.encoding()) {
            Ok(after) => r is Ok && final(dst)@ == after,
            Err(e) => r == Err::<(), ErrorKind>(e) && final(dst)@ == old(dst)@,
        },
{
    let data = profile.encode();
    store(dst, &data)
}

/// Reads the profile that `src` begins with.
pub fn unpack_profile_from_slice(src: &[u8]) -> (r: Result<Profile, ErrorKind>)
    ensures
        match ProfileView::decode(src@) {
            Some(profile) => r matches Ok(p) && p@ == profile && p@.encodable()
                && p@.well_formed(),
            None => r matches Err(e) && e == ErrorKind::MalformedRecord,
        },
{
    match Profile::decode(src) {
        Some(p) => Ok(p),
        None => Err(ErrorKind::MalformedRecord),
    }
}

// ---------------------------------------------------------------------
// Posts and comments
// ---------------------------------------------------------------------

/// The record of a post; a comment is a post too.
#[derive(Clone, Debug, PartialEq, Eq)]
pub struct Post {
    pub is_initialized: bool,
    /// The number of the post among the posts of its author.
    pub id: u64,
    pub author: Pubkey,
    pub content: String,
    pub timestamp: u64,
    pub likes: u64,
    pub comments: u64,
    pub mirrors: u64,
    pub images: Vec<String>,
    /// The tier that the likes earn.
    pub rating: PostRating,
    /// Set for a post with fewer than zero likes.
    pub in_kill_zone: bool,
}

/// A post as a mathematical value.
pub struct PostView {
    pub is_initialized: bool,
    pub id: u64,
    pub author: Seq<u8>,
    pub content: Seq<char>,
    pub timestamp: u64,
    pub likes: u64,
    pub comments: u64,
    pub mirrors: u64,
    pub images: Seq<Seq<char>>,
    pub rating: PostRating,
    pub in_kill_zone: bool,
}

impl View for Post {
    type V = PostView;

    open spec fn view(&self) -> PostView {
        PostView {
            is_initialized: self.is_initialized,
            id: self.id,
            author: self.author@,
            content: self.content@,
            timestamp: self.timestamp,
            likes: self.likes,
            comments: self.comments,
            mirrors: self.mirrors,
            images: self.images.deep_view(),
            rating: self.rating,
            in_kill_zone: self.in_kill_zone,
        }
    }
}

impl DeepView for Post {
    type V = PostView;

    open spec fn deep_view(&self) -> PostView {
        self@
    }
}

impl PostView {
    /// The author is an address.
    pub open spec fn well_formed(self) -> bool {
        self.author.len() == 32
    }

    /// The rating is the tier of the likes, and the post is outside the
    /// kill zone, as no count of likes is below zero.
    pub open spec fn rated(self) -> bool {
        self.rating == PostRating::tier(self.likes) && !self.in_kill_zone
    }

    /// The content and the images can be written.
    pub open spec fn encodable(self) -> bool {
        text_fits(self.content) && texts_fit(self.images)
    }

    /// The bytes that the post is stored as: its fields in the order of
    /// their declaration.
    #[verifier::opaque]
    pub open spec fn bytes(self) -> Seq<u8> {
        bool_bytes(self.is_initialized) + u64_bytes(self.id) + self.author + text_bytes(
            self.content,
        ) + u64_bytes(self.timestamp) + u64_bytes(self.likes) + u64_bytes(self.comments)
            + u64_bytes(self.mirrors) + texts_bytes(self.images) + rating_bytes(self.rating)
            + bool_bytes(self.in_kill_zone)
    }

    /// The bytes of the post, where it can be written.
    pub open spec fn encoding(self) -> Option<Seq<u8>> {
        if self.encodable() {
            Some(self.bytes())
        } else {
            None
        }
    }

    /// Takes a post off the front of `b`: each field off what the field
    /// before it left, and nothing where one of them cannot be taken.
    #[verifier::opaque]
    pub open spec fn take(b: Seq<u8>) -> Option<(PostView, Seq<u8>)> {
        let is_initialized = take_bool(b);
        let id = take_u64(rest_of(is_initialized));
        let author = take_key(rest_of(id));
        let content = take_text(rest_of(author));
        let timestamp = take_u64(rest_of(content));
        let likes = take_u64(rest_of(timestamp));
        let comments = take_u64(rest_of(likes));
        let mirrors = take_u64(rest_of(comments));
        let images = take_texts(rest_of(mirrors));
        let rating = take_rating(rest_of(images));
        let in_kill_zone = take_bool(rest_of(rating));
        if is_initialized is Some && id is Some && author is Some && content is Some
            && timestamp is Some && likes is Some && comments is Some && mirrors is Some
            && images is Some && rating is Some && in_kill_zone is Some {
            Some(
                (
                    PostView {
                        is_initialized: value_of(is_initialized),
                        id: value_of(id),
                        author: value_of(author),
                        content: value_of(content),
                        timestamp: value_of(timestamp),
                        likes: value_of(likes),
                        comments: value_of(comments),
                        mirrors: value_of(mirrors),
                        images: value_of(images),
                        rating: value_of(rating),
                        in_kill_zone: value_of(in_kill_zone),
                    },
                    rest_of(in_kill_zone),
                ),
            )
        } else {
            None
        }
    }

    /// The post that `b` begins with; what lies behind it is ignored.
    pub open spec fn decode(b: Seq<u8>) -> Option<PostView> {
        match PostView::take(b) {
            None => None,
            Some((post, rest)) => Some(post),
        }
    }
}

impl Post {
    /// Whether the record was ever written.
    pub fn is_initialized(&self) -> (r: bool)
        ensures
            r == self@.is_initialized,
    {
        self.is_initialized
    }

    /// The bytes of the post, or nothing where its content or its images
    /// are too long to be written.
    pub fn encode(&self) -> (r: Option<Vec<u8>>)
        ensures
            r.deep_view() == self@.encoding(),
    {
        if !text_len_fits(&self.content) || !texts_len_fit(&self.images) {
            return None;
        }
        let mut out: Vec<u8> = Vec::new();
        put_bool(&mut out, self.is_initialized);
        put_u64(&mut out, self.id);
        put_key(&mut out, &self.author);
        put_text(&mut out, &self.content);
        put_u64(&mut out, self.timestamp);
        put_u64(&mut out, self.likes);
        put_u64(&mut out, self.comments);
        put_u64(&mut out, self.mirrors);
        put_texts(&mut out, &self.images);
        put_rating(&mut out, self.rating);
        put_bool(&mut out, self.in_kill_zone);
        proof {
            reveal(PostView::bytes);
        }
        assert(out@ =~= self@.bytes());
        assert(out.deep_view() =~= out@);
        Some(out)
    }

    /// The post that `src` begins with.
    pub fn decode(src: &[u8]) -> (r: Option<Post>)
        ensures
            r.deep_view() == PostView::decode(src@),
            r matches Some(p) ==> p@.encodable() && p@.well_formed(),
    {
        proof {
            reveal(PostView::take);
        }
        assert(src@.skip(0) =~= src@);
        let (is_initialized, at) = read_bool(src, 0)?;
        let (id, at) = read_u64(src, at)?;
        let (author, at) = read_key(src, at)?;
        let (content, at) = read_text(src, at)?;
        let (timestamp, at) = read_u64(src, at)?;
        let (likes, at) = read_u64(src, at)?;
        let (comments, at) = read_u64(src, at)?;
        let (mirrors, at) = read_u64(src, at)?;
        let (images, at) = read_texts(src, at)?;
        let (rating, at) = read_rating(src, at)?;
        let (in_kill_zone, at) = read_bool(src, at)?;
        Some(
            Post {
                is_initialized,
                id,
                author,
                content,
                timestamp,
                likes,
                comments,
                mirrors,
                images,
                rating,
                in_kill_zone,
            },
        )
    }
}

impl PostView {
    /// The bytes of the post in front of `tail`, each field joined to all
    /// that follows it.
    #[verifier::opaque]
    pub open spec fn bytes_before(self, tail: Seq<u8>) -> Seq<u8> {
        bool_bytes(self.is_initialized) + (u64_bytes(self.id) + (self.author + (text_bytes(self.content) + (u64_bytes(self.timestamp) + (u64_bytes(self.likes) + (u64_bytes(self.comments) + (u64_bytes(self.mirrors) + (texts_bytes(self.images) + (rating_bytes(self.rating) + (bool_bytes(self.in_kill_zone) + (tail)))))))))))
    }
}

/// The bytes of a post in front of a tail are its fields, one after the
/// other, and then the tail.
proof fn lemma_post_bytes_before(p: PostView, tail: Seq<u8>)
    ensures
        p.bytes() + tail == p.bytes_before(tail),
{
    reveal(PostView::bytes);
    reveal(PostView::bytes_before);
    let r10 = bool_bytes(p.in_kill_zone) + tail;
    let r9 = rating_bytes(p.rating) + r10;
    let r8 = texts_bytes(p.images) + r9;
    let r7 = u64_bytes(p.mirrors) + r8;
    let r6 = u64_bytes(p.comments) + r7;
    let r5 = u64_bytes(p.likes) + r6;
    let r4 = u64_bytes(p.timestamp) + r5;
    let r3 = text_bytes(p.content) + r4;
    let r2 = p.author + r3;
    let r1 = u64_bytes(p.id) + r2;
    let x1 = bool_bytes(p.is_initialized);
    let x2 = x1 + u64_bytes(p.id);
    let x3 = x2 + p.author;
    let x4 = x3 + text_bytes(p.content);
    let x5 = x4 + u64_bytes(p.timestamp);
    let x6 = x5 + u64_bytes(p.likes);
    let x7 = x6 + u64_bytes(p.comments);
    let x8 = x7 + u64_bytes(p.mirrors);
    let x9 = x8 + texts_bytes(p.images);
    let x10 = x9 + rating_bytes(p.rating);
    lemma_regroup(x10, bool_bytes(p.in_kill_zone), tail);
    lemma_regroup(x9, rating_bytes(p.rating), r10);
    lemma_regroup(x8, texts_bytes(p.images), r9);
    lemma_regroup(x7, u64_bytes(p.mirrors), r8);
    lemma_regroup(x6, u64_bytes(p.comments), r7);
    lemma_regroup(x5, u64_bytes(p.likes), r6);
    lemma_regroup(x4, u64_bytes(p.timestamp), r5);
    lemma_regroup(x3, text_bytes(p.content), r4);
    lemma_regroup(x2, p.author, r3);
    lemma_regroup(x1, u64_bytes(p.id), r2);
}

/// Taking a post off its bytes gives the post and leaves the tail.
proof fn lemma_post_take_before(p: PostView, tail: Seq<u8>)
    requires
        p.well_formed(),
        p.encodable(),
    ensures
        PostView::take(p.bytes_before(tail)) == Some((p, tail)),
{
    reveal(PostView::take);
    reveal(PostView::bytes_before);
    let r11 = tail;
    let r10 = bool_bytes(p.in_kill_zone) + r11;
    let r9 = rating_bytes(p.rating) + r10;
    let r8 = texts_bytes(p.images) + r9;
    let r7 = u64_bytes(p.mirrors) + r8;
    let r6 = u64_bytes(p.comments) + r7;
    let r5 = u64_bytes(p.likes) + r6;
    let r4 = u64_bytes(p.timestamp) + r5;
    let r3 = text_bytes(p.content) + r4;
    let r2 = p.author + r3;
    let r1 = u64_bytes(p.id) + r2;
    let r0 = bool_bytes(p.is_initialized) + r1;
    assert(take_bool(r0) == Some((p.is_initialized, r1))) by {
        lemma_take_bool(p.is_initialized, r1);
    }
    assert(take_u64(r1) == Some((p.id, r2))) by {
        lemma_take_u64(p.id, r2);
    }
    assert(take_key(r2) == Some((p.author, r3))) by {
        lemma_take_key(p.author, r3);
    }
    assert(take_text(r3) == Some((p.content, r4))) by {
        lemma_take_text(p.content, r4);
    }
    assert(take_u64(r4) == Some((p.timestamp, r5))) by {
        lemma_take_u64(p.timestamp, r5);
    }
    assert(take_u64(r5) == Some((p.likes, r6))) by {
        lemma_take_u64(p.likes, r6);
    }
    assert(take_u64(r6) == Some((p.comments, r7))) by {
        lemma_take_u64(p.comments, r7);
    }
    assert(take_u64(r7) == Some((p.mirrors, r8))) by {
        lemma_take_u64(p.mirrors, r8);
    }
    assert(take_texts(r8) == Some((p.images, r9))) by {
        lemma_take_texts(p.images, r9);
    }
    assert(take_rating(r9) == Some((p.rating, r10))) by {
        lemma_take_rating(p.rating, r10);
    }
    assert(take_bool(r10) == Some((p.in_kill_zone, r11))) by {
        lemma_take_bool(p.in_kill_zone, r11);
    }
}

impl PostView {
    /// The number of bytes that the post is stored as: 83 for its
    /// fields of fixed width and the lengths in front of the others, and
    /// the bytes of its texts.
    pub open spec fn size(self) -> nat {
        83 + encode_utf8(self.content).len() + texts_body(self.images).len()
    }
}

/// The bytes of a post are as many as its size says.
pub proof fn lemma_post_size(p: PostView)
    requires
        p.well_formed(),
    ensures
        p.bytes().len() == p.size(),
{
    reveal(PostView::bytes);
    let x1 = bool_bytes(p.is_initialized);
    lemma_widths(p.is_initialized, 0, 0);
    assert(x1.len() == 1);
    let x2 = x1 + u64_bytes(p.id);
    lemma_widths(false, p.id, 0);
    assert(x2.len() == 9);
    let x3 = x2 + p.author;
    assert(x3.len() == 41);
    let x4 = x3 + text_bytes(p.content);
    lemma_text_bytes_len(p.content);
    assert(x4.len() == 45 + encode_utf8(p.content).len());
    let x5 = x4 + u64_bytes(p.timestamp);
    lemma_widths(false, p.timestamp, 0);
    assert(x5.len() == 53 + encode_utf8(p.content).len());
    let x6 = x5 + u64_bytes(p.likes);
    lemma_widths(false, p.likes, 0);
    assert(x6.len() == 61 + encode_utf8(p.content).len());
    let x7 = x6 + u64_bytes(p.comments);
    lemma_widths(false, p.comments, 0);
    assert(x7.len() == 69 + encode_utf8(p.content).len());
    let x8 = x7 + u64_bytes(p.mirrors);
    lemma_widths(false, p.mirrors, 0);
    assert(x8.len() == 77 + encode_utf8(p.content).len());
    let x9 = x8 + texts_bytes(p.images);
    lemma_texts_bytes_len(p.images);
    assert(x9.len() == 81 + encode_utf8(p.content).len() + texts_body(p.images).len());
    let x10 = x9 + rating_bytes(p.rating);
    assert(x10.len() == 82 + encode_utf8(p.content).len() + texts_body(p.images).len());
    let x11 = x10 + bool_bytes(p.in_kill_zone);
    lemma_widths(p.in_kill_zone, 0, 0);
    assert(x11.len() == 83 + encode_utf8(p.content).len() + texts_body(p.images).len());
}

/// A post that some bytes decode to is well formed and can be written
/// again.
pub proof fn lemma_decoded_post_valid(b: Seq<u8>)
    ensures
        PostView::decode(b) matches Some(p) ==> p.well_formed() && p.encodable(),
{
    reveal(PostView::take);
    let is_initialized = take_bool(b);
    let id = take_u64(rest_of(is_initialized));
    let author = take_key(rest_of(id));
    let content = take_text(rest_of(author));
    lemma_taken_text_fits(rest_of(author));
    let timestamp = take_u64(rest_of(content));
    let likes = take_u64(rest_of(timestamp));
    let comments = take_u64(rest_of(likes));
    let mirrors = take_u64(rest_of(comments));
    let images = take_texts(rest_of(mirrors));
    lemma_taken_texts_fit(rest_of(mirrors));
    let rating = take_rating(rest_of(images));
    let in_kill_zone = take_bool(rest_of(rating));
}

/// A post that some bytes decode to took no more bytes than there
/// are: the bytes are as many as its size and what was left behind it.
pub proof fn lemma_decoded_post_fits(b: Seq<u8>)
    ensures
        PostView::take(b) matches Some(taken) ==> b.len() == taken.0.size() + taken.1.len(),
        PostView::decode(b) matches Some(p) ==> p.size() <= b.len(),
{
    reveal(PostView::take);
    let is_initialized = take_bool(b);
    assert(is_initialized is Some ==> b.len() == 1 + rest_of(is_initialized).len());
    let id = take_u64(rest_of(is_initialized));
    assert(is_initialized is Some && id is Some ==> b.len() == 9 + rest_of(id).len());
    let author = take_key(rest_of(id));
    assert(is_initialized is Some && id is Some && author is Some ==> b.len() == 41 + rest_of(author).len());
    let content = take_text(rest_of(author));
    lemma_taken_text_len(rest_of(author));
    assert(is_initialized is Some && id is Some && author is Some && content is Some ==> b.len() == 45 + encode_utf8(value_of(content)).len() + rest_of(content).len());
    let timestamp = take_u64(rest_of(content));
    assert(is_initialized is Some && id is Some && author is Some && content is Some && timestamp is Some ==> b.len() == 53 + encode_utf8(value_of(content)).len() + rest_of(timestamp).len());
    let likes = take_u64(rest_of(timestamp));
    assert(is_initialized is Some && id is Some && author is Some && content is Some && timestamp is Some && likes is Some ==> b.len() == 61 + encode_utf8(value_of(content)).len() + rest_of(likes).len());
    let comments = take_u64(rest_of(likes));
    assert(is_initialized is Some && id is Some && author is Some && content is Some && timestamp is Some && likes is Some && comments is Some ==> b.len() == 69 + encode_utf8(value_of(content)).len() + rest_of(comments).len());
    let mirrors = take_u64(rest_of(comments));
    assert(is_initialized is Some && id is Some && author is Some && content is Some && timestamp is Some && likes is Some && comments is Some && mirrors is Some ==> b.len() == 77 + encode_utf8(value_of(content)).len() + rest_of(mirrors).len());
    let images = take_texts(rest_of(mirrors));
    lemma_taken_texts_len(rest_of(mirrors));
    assert(is_initialized is Some && id is Some && author is Some && content is Some && timestamp is Some && likes is Some && comments is Some && mirrors is Some && images is Some ==> b.len() == 81 + encode_utf8(value_of(content)).len() + texts_body(value_of(images)).len() + rest_of(images).len());
    let rating = take_rating(rest_of(images));
    assert(is_initialized is Some && id is Some && author is Some && content is Some && timestamp is Some && likes is Some && comments is Some && mirrors is Some && images is Some && rating is Some ==> b.len() == 82 + encode_utf8(value_of(content)).len() + texts_body(value_of(images)).len() + rest_of(rating).len());
    let in_kill_zone = take_bool(rest_of(rating));
    assert(is_initialized is Some && id is Some && author is Some && content is Some && timestamp is Some && likes is Some && comments is Some && mirrors is Some && images is Some && rating is Some && in_kill_zone is Some ==> b.len() == 83 + encode_utf8(value_of(content)).len() + texts_body(value_of(images)).len() + rest_of(in_kill_zone).len());
}

/// Decoding what a post encodes to gives the post back, whatever
/// lies behind it in the buffer.
pub proof fn lemma_post_round_trip(p: PostView, tail: Seq<u8>)
    requires
        p.well_formed(),
        p.encodable(),
    ensures
        PostView::take(p.bytes() + tail) == Some((p, tail)),
        PostView::decode(p.bytes() + tail) == Some(p),
{
    lemma_post_bytes_before(p, tail);
    lemma_post_take_before(p, tail);
}

impl PostView {
    /// The post that a fresh buffer holds.
    pub open spec fn blank() -> PostView {
        PostView {
            is_initialized: false,
            id: 0,
            author: zeros(32),
            content: Seq::empty(),
            timestamp: 0,
            likes: 0,
            comments: 0,
            mirrors: 0,
            images: Seq::empty(),
            rating: PostRating::Unrated,
            in_kill_zone: false,
        }
    }
}

/// A buffer of zeros, of 83 bytes or more, decodes to the post that is not
/// initialized.
pub proof fn lemma_post_of_zeros(b: Seq<u8>)
    requires
        zeroed(b),
        b.len() >= 83,
    ensures
        PostView::decode(b) == Some(PostView::blank()),
{
    let p = PostView::blank();
    lemma_zero_fields();
    assert(rating_bytes(PostRating::Unrated) =~= zeros(1));
    assert(p.bytes() == zeros(83)) by {
        reveal(PostView::bytes);
        lemma_zeros_add(1, 8);
        lemma_zeros_add(9, 32);
        lemma_zeros_add(41, 4);
        lemma_zeros_add(45, 8);
        lemma_zeros_add(53, 8);
        lemma_zeros_add(61, 8);
        lemma_zeros_add(69, 8);
        lemma_zeros_add(77, 4);
        lemma_zeros_add(81, 1);
        lemma_zeros_add(82, 1);
    }
    lemma_zeroed_split(b, 83);
    lemma_post_round_trip(p, b.skip(83));
}

/// Writes the post over the front of `dst`. A post that is longer than
/// `dst` is refused, and `dst` is left as it was.
pub fn pack_post_into_slice(post: &Post, dst: &mut [u8]) -> (r: Result<(), ErrorKind>)
    ensures
        match stored(old(dst)@, post@.encoding()) {
            Ok(after) => r is Ok && final(dst)@ == after,
            Err(e) => r == Err::<(), ErrorKind>(e) && final(dst)@ == old(dst)@,
        },
{
    let data = post.encode();
    store(dst, &data)
}

/// Reads the post that `src` begins with.
pub fn unpack_post_from_slice(src: &[u8]) -> (r: Result<Post, ErrorKind>)
    ensures
        match PostView::decode(src@) {
            Some(post) => r matches Ok(p) && p@ == post && p@.encodable() && p@.well_formed(),
            None => r matches Err(e) && e == ErrorKind::MalformedRecord,
        },
{
    match Post::decode(src) {
        Some(p) => Ok(p),
        None => Err(ErrorKind::MalformedRecord),
    }
}

// ---------------------------------------------------------------------
// Communities
// ---------------------------------------------------------------------

/// The record of a community: one for each named group.
#[derive(Clone, Debug, PartialEq, Eq)]
pub struct Community {
    pub is_initialized: bool,
    pub id: u64,
    pub name: String,
    pub description: String,
    pub avatar: String,
    pub owner: Pubkey,
    /// The number of members; the creator is the first.
    pub member_count: u64,
    pub rules: Vec<String>,
    /// Set for a community whose name begins with `sb/`.
    pub is_sb_community: bool,
}

/// A community as a mathematical value.
pub struct CommunityView {
    pub is_initialized: bool,
    pub id: u64,
    pub name: Seq<char>,
    pub description: Seq<char>,
    pub avatar: Seq<char>,
    pub owner: Seq<u8>,
    pub member_count: u64,
    pub rules: Seq<Seq<char>>,
    pub is_sb_community: bool,
}

impl View for Community {
    type V = CommunityView;

    open spec fn view(&self) -> CommunityView {
        CommunityView {
            is_initialized: self.is_initialized,
            id: self.id,
            name: self.name@,
            description: self.description@,
            avatar: self.avatar@,
            owner: self.owner@,
            member_count: self.member_count,
            rules: self.rules.deep_view(),
            is_sb_community: self.is_sb_community,
        }
    }
}

impl DeepView for Community {
    type V = CommunityView;

    open spec fn deep_view(&self) -> CommunityView {
        self@
    }
}

impl CommunityView {
    /// The owner is an address.
    pub open spec fn well_formed(self) -> bool {
        self.owner.len() == 32
    }

    /// The texts and the rules can be written.
    pub open spec fn encodable(self) -> bool {
        &&& text_fits(self.name)
        &&& text_fits(self.description)
        &&& text_fits(self.avatar)
        &&& texts_fit(self.rules)
    }

    /// The bytes that the community is stored as: its fields in the order
    /// of their declaration.
    #[verifier::opaque]
    pub open spec fn bytes(self) -> Seq<u8> {
        bool_bytes(self.is_initialized) + u64_bytes(self.id) + text_bytes(self.name) + text_bytes(
            self.description,
        ) + text_bytes(self.avatar) + self.owner + u64_bytes(self.member_count) + texts_bytes(
            self.rules,
        ) + bool_bytes(self.is_sb_community)
    }

    /// The bytes of the community, where it can be written.
    pub open spec fn encoding(self) -> Option<Seq<u8>> {
        if self.encodable() {
            Some(self.bytes())
        } else {
            None
        }
    }

    /// Takes a community off the front of `b`: each field off what the
    /// field before it left, and nothing where one of them cannot be taken.
    #[verifier::opaque]
    pub open spec fn take(b: Seq<u8>) -> Option<(CommunityView, Seq<u8>)> {
        let is_initialized = take_bool(b);
        let id = take_u64(rest_of(is_initialized));
        let name = take_text(rest_of(id));
        let description = take_text(rest_of(name));
        let avatar = take_text(rest_of(description));
        let owner = take_key(rest_of(avatar));
        let member_count = take_u64(rest_of(owner));
        let rules = take_texts(rest_of(member_count));
        let is_sb_community = take_bool(rest_of(rules));
        if is_initialized is Some && id is Some && name is Some && description is Some
            && avatar is Some && owner is Some && member_count is Some && rules is Some
            && is_sb_community is Some {
            Some(
                (
                    CommunityView {
                        is_initialized: value_of(is_initialized),
                        id: value_of(id),
                        name: value_of(name),
                        description: value_of(description),
                        avatar: value_of(avatar),
                        owner: value_of(owner),
                        member_count: value_of(member_count),
                        rules: value_of(rules),
                        is_sb_community: value_of(is_sb_community),
                    },
                    rest_of(is_sb_community),
                ),
            )
        } else {
            None
        }
    }

    /// The community that `b` begins with; what lies behind it is ignored.
    pub open spec fn decode(b: Seq<u8>) -> Option<CommunityView> {
        match CommunityView::take(b) {
            None => None,
            Some((community, rest)) => Some(community),
        }
    }
}

impl Community {
    /// Whether the record was ever written.
    pub fn is_initialized(&self) -> (r: bool)
        ensures
            r == self@.is_initialized,
    {
        self.is_initialized
    }

    /// The bytes of the community, or nothing where its texts or its rules
    /// are too long to be written.
    pub fn encode(&self) -> (r: Option<Vec<u8>>)
        ensures
            r.deep_view() == self@.encoding(),
    {
        if !text_len_fits(&self.name) || !text_len_fits(&self.description) || !text_len_fits(
            &self.avatar,
        ) || !texts_len_fit(&self.rules) {
            return None;
        }
        let mut out: Vec<u8> = Vec::new();
        put_bool(&mut out, self.is_initialized);
        put_u64(&mut out, self.id);
        put_text(&mut out, &self.name);
        put_text(&mut out, &self.description);
        put_text(&mut out, &self.avatar);
        put_key(&mut out, &self.owner);
        put_u64(&mut out, self.member_count);
        put_texts(&mut out, &self.rules);
        put_bool(&mut out, self.is_sb_community);
        proof {
            reveal(CommunityView::bytes);
        }
        assert(out@ =~= self@.bytes());
        assert(out.deep_view() =~= out@);
        Some(out)
    }

    /// The community that `src` begins with.
    pub fn decode(src: &[u8]) -> (r: Option<Community>)
        ensures
            r.deep_view() == CommunityView::decode(src@),
            r matches Some(c) ==> c@.encodable() && c@.well_formed(),
    {
        proof {
            reveal(CommunityView::take);
        }
        assert(src@.skip(0) =~= src@);
        let (is_initialized, at) = read_bool(src, 0)?;
        let (id, at) = read_u64(src, at)?;
        let (name, at) = read_text(src, at)?;
        let (description, at) = read_text(src, at)?;
        let (avatar, at) = read_text(src, at)?;
        let (owner, at) = read_key(src, at)?;
        let (member_count, at) = read_u64(src, at)?;
        let (rules, at) = read_texts(src, at)?;
        let (is_sb_community, at) = read_bool(src, at)?;
        Some(
            Community {
                is_initialized,
                id,
                name,
                description,
                avatar,
                owner,
                member_count,
                rules,
                is_sb_community,
            },
        )
    }
}

impl CommunityView {
    /// The bytes of the community in front of `tail`, each field joined to all
    /// that follows it.
    #[verifier::opaque]
    pub open spec fn bytes_before(self, tail: Seq<u8>) -> Seq<u8> {
        bool_bytes(self.is_initialized) + (u64_bytes(self.id) + (text_bytes(self.name) + (text_bytes(self.description) + (text_bytes(self.avatar) + (self.owner + (u64_bytes(self.member_count) + (texts_bytes(self.rules) + (bool_bytes(self.is_sb_community) + (tail)))))))))
    }
}

/// The bytes of a community in front of a tail are its fields, one after the
/// other, and then the tail.
proof fn lemma_community_bytes_before(c: CommunityView, tail: Seq<u8>)
    ensures
        c.bytes() + tail == c.bytes_before(tail),
{
    reveal(CommunityView::bytes);
    reveal(CommunityView::bytes_before);
    let r8 = bool_bytes(c.is_sb_community) + tail;
    let r7 = texts_bytes(c.rules) + r8;
    let r6 = u64_bytes(c.member_count) + r7;
    let r5 = c.owner + r6;
    let r4 = text_bytes(c.avatar) + r5;
    let r3 = text_bytes(c.description) + r4;
    let r2 = text_bytes(c.name) + r3;
    let r1 = u64_bytes(c.id) + r2;
    let x1 = bool_bytes(c.is_initialized);
    let x2 = x1 + u64_bytes(c.id);
    let x3 = x2 + text_bytes(c.name);
    let x4 = x3 + text_bytes(c.description);
    let x5 = x4 + text_bytes(c.avatar);
    let x6 = x5 + c.owner;
    let x7 = x6 + u64_bytes(c.member_count);
    let x8 = x7 + texts_bytes(c.rules);
    lemma_regroup(x8, bool_bytes(c.is_sb_community), tail);
    lemma_regroup(x7, texts_bytes(c.rules), r8);
    lemma_regroup(x6, u64_bytes(c.member_count), r7);
    lemma_regroup(x5, c.owner, r6);
    lemma_regroup(x4, text_bytes(c.avatar), r5);
    lemma_regroup(x3, text_bytes(c.description), r4);
    lemma_regroup(x2, text_bytes(c.name), r3);
    lemma_regroup(x1, u64_bytes(c.id), r2);
}

/// Taking a community off its bytes gives the community and leaves the tail.
proof fn lemma_community_take_before(c: CommunityView, tail: Seq<u8>)
    requires
        c.well_formed(),
        c.encodable(),
    ensures
        CommunityView::take(c.bytes_before(tail)) == Some((c, tail)),
{
    reveal(CommunityView::take);
    reveal(CommunityView::bytes_before);
    let r9 = tail;
    let r8 = bool_bytes(c.is_sb_community) + r9;
    let r7 = texts_bytes(c.rules) + r8;
    let r6 = u64_bytes(c.member_count) + r7;
    let r5 = c.owner + r6;
    let r4 = text_bytes(c.avatar) + r5;
    let r3 = text_bytes(c.description) + r4;
    let r2 = text_bytes(c.name) + r3;
    let r1 = u64_bytes(c.id) + r2;
    let r0 = bool_bytes(c.is_initialized) + r1;
    assert(take_bool(r0) == Some((c.is_initialized, r1))) by {
        lemma_take_bool(c.is_initialized, r1);
    }
    assert(take_u64(r1) == Some((c.id, r2))) by {
        lemma_take_u64(c.id, r2);
    }
    assert(take_text(r2) == Some((c.name, r3))) by {
        lemma_take_text(c.name, r3);
    }
    assert(take_text(r3) == Some((c.description, r4))) by {
        lemma_take_text(c.description, r4);
    }
    assert(take_text(r4) == Some((c.avatar, r5))) by {
        lemma_take_text(c.avatar, r5);
    }
    assert(take_key(r5) == Some((c.owner, r6))) by {
        lemma_take_key(c.owner, r6);
    }
    assert(take_u64(r6) == Some((c.member_count, r7))) by {
        lemma_take_u64(c.member_count, r7);
    }
    assert(take_texts(r7) == Some((c.rules, r8))) by {
        lemma_take_texts(c.rules, r8);
    }
    assert(take_bool(r8) == Some((c.is_sb_community, r9))) by {
        lemma_take_bool(c.is_sb_community, r9);
    }
}

impl CommunityView {
    /// The number of bytes that the community is stored as: 66 for its
    /// fields of fixed width and the lengths in front of the others, and
    /// the bytes of its texts.
    pub open spec fn size(self) -> nat {
        66 + encode_utf8(self.name).len() + encode_utf8(self.description).len() + encode_utf8(self.avatar).len() + texts_body(self.rules).len()
    }
}

/// The bytes of a community are as many as its size says.
pub proof fn lemma_community_size(c: CommunityView)
    requires
        c.well_formed(),
    ensures
        c.bytes().len() == c.size(),
{
    reveal(CommunityView::bytes);
    let x1 = bool_bytes(c.is_initialized);
    lemma_widths(c.is_initialized, 0, 0);
    assert(x1.len() == 1);
    let x2 = x1 + u64_bytes(c.id);
    lemma_widths(false, c.id, 0);
    assert(x2.len() == 9);
    let x3 = x2 + text_bytes(c.name);
    lemma_text_bytes_len(c.name);
    assert(x3.len() == 13 + encode_utf8(c.name).len());
    let x4 = x3 + text_bytes(c.description);
    lemma_text_bytes_len(c.description);
    assert(x4.len() == 17 + encode_utf8(c.name).len() + encode_utf8(c.description).len());
    let x5 = x4 + text_bytes(c.avatar);
    lemma_text_bytes_len(c.avatar);
    assert(x5.len() == 21 + encode_utf8(c.name).len() + encode_utf8(c.description).len() + encode_utf8(c.avatar).len());
    let x6 = x5 + c.owner;
    assert(x6.len() == 53 + encode_utf8(c.name).len() + encode_utf8(c.description).len() + encode_utf8(c.avatar).len());
    let x7 = x6 + u64_bytes(c.member_count);
    lemma_widths(false, c.member_count, 0);
    assert(x7.len() == 61 + encode_utf8(c.name).len() + encode_utf8(c.description).len() + encode_utf8(c.avatar).len());
    let x8 = x7 + texts_bytes(c.rules);
    lemma_texts_bytes_len(c.rules);
    assert(x8.len() == 65 + encode_utf8(c.name).len() + encode_utf8(c.description).len() + encode_utf8(c.avatar).len() + texts_body(c.rules).len());
    let x9 = x8 + bool_bytes(c.is_sb_community);
    lemma_widths(c.is_sb_community, 0, 0);
    assert(x9.len() == 66 + encode_utf8(c.name).len() + encode_utf8(c.description).len() + encode_utf8(c.avatar).len() + texts_body(c.rules).len());
}

/// A community that some bytes decode to is well formed and can be written
/// again.
pub proof fn lemma_decoded_community_valid(b: Seq<u8>)
    ensures
        CommunityView::decode(b) matches Some(c) ==> c.well_formed() && c.encodable(),
{
    reveal(CommunityView::take);
    let is_initialized = take_bool(b);
    let id = take_u64(rest_of(is_initialized));
    let name = take_text(rest_of(id));
    lemma_taken_text_fits(rest_of(id));
    let description = take_text(rest_of(name));
    lemma_taken_text_fits(rest_of(name));
    let avatar = take_text(rest_of(description));
    lemma_taken_text_fits(rest_of(description));
    let owner = take_key(rest_of(avatar));
    let member_count = take_u64(rest_of(owner));
    let rules = take_texts(rest_of(member_count));
    lemma_taken_texts_fit(rest_of(member_count));
    let is_sb_community = take_bool(rest_of(rules));
}

/// A community that some bytes decode to took no more bytes than there
/// are: the bytes are as many as its size and what was left behind it.
pub proof fn lemma_decoded_community_fits(b: Seq<u8>)
    ensures
        CommunityView::take(b) matches Some(taken) ==> b.len() == taken.0.size() + taken.1.len(),
        CommunityView::decode(b) matches Some(c) ==> c.size() <= b.len(),
{
    reveal(CommunityView::take);
    let is_initialized = take_bool(b);
    assert(is_initialized is Some ==> b.len() == 1 + rest_of(is_initialized).len());
    let id = take_u64(rest_of(is_initialized));
    assert(is_initialized is Some && id is Some ==> b.len() == 9 + rest_of(id).len());
    let name = take_text(rest_of(id));
    lemma_taken_text_len(rest_of(id));
    assert(is_initialized is Some && id is Some && name is Some ==> b.len() == 13 + encode_utf8(value_of(name)).len() + rest_of(name).len());
    let description = take_text(rest_of(name));
    lemma_taken_text_len(rest_of(name));
    assert(is_initialized is Some && id is Some && name is Some && description is Some ==> b.len() == 17 + encode_utf8(value_of(name)).len() + encode_utf8(value_of(description)).len() + rest_of(description).len());
    let avatar = take_text(rest_of(description));
    lemma_taken_text_len(rest_of(description));
    assert(is_initialized is Some && id is Some && name is Some && description is Some && avatar is Some ==> b.len() == 21 + encode_utf8(value_of(name)).len() + encode_utf8(value_of(description)).len() + encode_utf8(value_of(avatar)).len() + rest_of(avatar).len());
    let owner = take_key(rest_of(avatar));
    assert(is_initialized is Some && id is Some && name is Some && description is Some && avatar is Some && owner is Some ==> b.len() == 53 + encode_utf8(value_of(name)).len() + encode_utf8(value_of(description)).len() + encode_utf8(value_of(avatar)).len() + rest_of(owner).len());
    let member_count = take_u64(rest_of(owner));
    assert(is_initialized is Some && id is Some && name is Some && description is Some && avatar is Some && owner is Some && member_count is Some ==> b.len() == 61 + encode_utf8(value_of(name)).len() + encode_utf8(value_of(description)).len() + encode_utf8(value_of(avatar)).len() + rest_of(member_count).len());
    let rules = take_texts(rest_of(member_count));
    lemma_taken_texts_len(rest_of(member_count));
    assert(is_initialized is Some && id is Some && name is Some && description is Some && avatar is Some && owner is Some && member_count is Some && rules is Some ==> b.len() == 65 + encode_utf8(value_of(name)).len() + encode_utf8(value_of(description)).len() + encode_utf8(value_of(avatar)).len() + texts_body(value_of(rules)).len() + rest_of(rules).len());
    let is_sb_community = take_bool(rest_of(rules));
    assert(is_initialized is Some && id is Some && name is Some && description is Some && avatar is Some && owner is Some && member_count is Some && rules is Some && is_sb_community is Some ==> b.len() == 66 + encode_utf8(value_of(name)).len() + encode_utf8(value_of(description)).len() + encode_utf8(value_of(avatar)).len() + texts_body(value_of(rules)).len() + rest_of(is_sb_community).len());
}

/// Decoding what a community encodes to gives the community back, whatever
/// lies behind it in the buffer.
pub proof fn lemma_community_round_trip(c: CommunityView, tail: Seq<u8>)
    requires
        c.well_formed(),
        c.encodable(),
    ensures
        CommunityView::take(c.bytes() + tail) == Some((c, tail)),
        CommunityView::decode(c.bytes() + tail) == Some(c),
{
    lemma_community_bytes_before(c, tail);
    lemma_community_take_before(c, tail);
}

impl CommunityView {
    /// The community that a fresh buffer holds.
    pub open spec fn blank() -> CommunityView {
        CommunityView {
            is_initialized: false,
            id: 0,
            name: Seq::empty(),
            description: Seq::empty(),
            avatar: Seq::empty(),
            owner: zeros(32),
            member_count: 0,
            rules: Seq::empty(),
            is_sb_community: false,
        }
    }
}

/// A buffer of zeros, of 66 bytes or more, decodes to the community that
/// is not initialized.
pub proof fn lemma_community_of_zeros(b: Seq<u8>)
    requires
        zeroed(b),
        b.len() >= 66,
    ensures
        CommunityView::decode(b) == Some(CommunityView::blank()),
{
    let c = CommunityView::blank();
    lemma_zero_fields();
    assert(c.bytes() == zeros(66)) by {
        reveal(CommunityView::bytes);
        lemma_zeros_add(1, 8);
        lemma_zeros_add(9, 4);
        lemma_zeros_add(13, 4);
        lemma_zeros_add(17, 4);
        lemma_zeros_add(21, 32);
        lemma_zeros_add(53, 8);
        lemma_zeros_add(61, 4);
        lemma_zeros_add(65, 1);
    }
    lemma_zeroed_split(b, 66);
    lemma_community_round_trip(c, b.skip(66));
}

/// Writes the community over the front of `dst`. A community that is
/// longer than `dst` is refused, and `dst` is left as it was.
pub fn pack_community_into_slice(community: &Community, dst: &mut [u8]) -> (r: Result<
    (),
    ErrorKind,
>)
    ensures
        match stored(old(dst)@, community@.encoding()) {
            Ok(after) => r is Ok && final(dst)@ == after,
            Err(e) => r == Err::<(), ErrorKind>(e) && final(dst)@ == old(dst)@,
        },
{
    let data = community.encode();
    store(dst, &data)
}

/// Reads the community that `src` begins with.
pub fn unpack_community_from_slice(src: &[u8]) -> (r: Result<Community, ErrorKind>)
    ensures
        match CommunityView::decode(src@) {
            Some(community) => r matches Ok(c) && c@ == community && c@.encodable()
                && c@.well_formed(),
            None => r matches Err(e) && e == ErrorKind::MalformedRecord,
        },
{
    match Community::decode(src) {
        Some(c) => Ok(c),
        None => Err(ErrorKind::MalformedRecord),
    }
}

// ---------------------------------------------------------------------
// Totals
// ---------------------------------------------------------------------

/// The totals of the program: how many records of each kind exist.
#[derive(Clone, Copy, Debug, PartialEq, Eq, Structural)]
pub struct ProgramState {
    pub profiles_count: u64,
    pub posts_count: u64,
    pub communities_count: u64,
}

} // verus!
