//! The commands of the program and the bytes that carry them.
//!
//! A command is one byte that says which command it is, and then the
//! fields of that command in their order. Nothing may follow the fields.

use crate::address::Pubkey;
use crate::error::ErrorKind;
use crate::wire::{
    lemma_regroup, lemma_take_key, lemma_take_text, lemma_take_texts, lemma_take_u64,
    lemma_take_u8, put_key, put_text, put_texts, put_u64, read_key, read_text, read_texts,
    read_u64, read_u8, rest_of, take_key, take_text, take_texts, take_u64, take_u8, text_bytes,
    text_fits, text_len_fits, texts_bytes, texts_fit, texts_len_fit, u64_bytes, value_of,
};
use vstd::prelude::*;

verus! {

/// A command. Each names the accounts that it expects, in their order.
#[derive(Clone, Debug, PartialEq, Eq)]
pub enum ContractInstruction {
    /// Creates the profile of the caller.
    ///
    /// Accounts: the caller, who signs; the account of the profile, at the
    /// address derived from the caller and the username; the system
    /// program.
    CreateProfile { username: String, bio: String, profile_image: String, cover_image: String },
    /// Replaces the bio and the images of the caller's profile.
    ///
    /// Accounts: the caller, who signs; the account of the profile.
    UpdateProfile { bio: String, profile_image: String, cover_image: String },
    /// Creates a post of the caller.
    ///
    /// Accounts: the caller, who signs; the account of the post; the
    /// account of the caller's profile; the system program.
    CreatePost { content: String, images: Vec<String> },
    /// Likes a post.
    ///
    /// Accounts: the caller, who signs; the account of the post; the
    /// account of the profile of the post's author.
    LikePost { post_id: u64 },
    /// Comments on a post.
    ///
    /// Accounts: the caller, who signs; the account of the comment; the
    /// account of the post commented on; the account of the caller's
    /// profile; the system program.
    CommentOnPost { content: String, parent_id: u64 },
    /// Follows a profile.
    ///
    /// Accounts: the caller, who signs; the account of the profile to
    /// follow; the account of the caller's profile.
    FollowProfile { profile_id: Pubkey },
    /// Stops following a profile.
    ///
    /// Accounts: the caller, who signs; the account of the profile to
    /// leave; the account of the caller's profile.
    UnfollowProfile { profile_id: Pubkey },
    /// Creates a community.
    ///
    /// Accounts: the caller, who signs; the account of the community; the
    /// system program.
    CreateCommunity { name: String, description: String, avatar: String, rules: Vec<String> },
    /// Joins a community.
    ///
    /// Accounts: the caller, who signs; the account of the community.
    JoinCommunity { community_id: u64 },
}

/// A command as a mathematical value.
pub enum InstructionView {
    CreateProfile {
        username: Seq<char>,
        bio: Seq<char>,
        profile_image: Seq<char>,
        cover_image: Seq<char>,
    },
    UpdateProfile { bio: Seq<char>, profile_image: Seq<char>, cover_image: Seq<char> },
    CreatePost { content: Seq<char>, images: Seq<Seq<char>> },
    LikePost { post_id: u64 },
    CommentOnPost { content: Seq<char>, parent_id: u64 },
    FollowProfile { profile_id: Seq<u8> },
    UnfollowProfile { profile_id: Seq<u8> },
    CreateCommunity {
        name: Seq<char>,
        description: Seq<char>,
        avatar: Seq<char>,
        rules: Seq<Seq<char>>,
    },
    JoinCommunity { community_id: u64 },
}

impl View for ContractInstruction {
    type V = InstructionView;

    open spec fn view(&self) -> InstructionView {
        match *self {
            ContractInstruction::CreateProfile { username, bio, profile_image, cover_image } => {
                InstructionView::CreateProfile {
                    username: username@,
                    bio: bio@,
                    profile_image: profile_image@,
                    cover_image: cover_image@,
                }
            },
            ContractInstruction::UpdateProfile { bio, profile_image, cover_image } => {
                InstructionView::UpdateProfile {
                    bio: bio@,
                    profile_image: profile_image@,
                    cover_image: cover_image@,
                }
            },
            ContractInstruction::CreatePost { content, images } => InstructionView::CreatePost {
                content: content@,
                images: images.deep_view(),
            },
            ContractInstruction::LikePost { post_id } => InstructionView::LikePost { post_id },
            ContractInstruction::CommentOnPost { content, parent_id } => {
                InstructionView::CommentOnPost { content: content@, parent_id }
            },
            ContractInstruction::FollowProfile { profile_id } => InstructionView::FollowProfile {
                profile_id: profile_id@,
            },
            ContractInstruction::UnfollowProfile { profile_id } => {
                InstructionView::UnfollowProfile { profile_id: profile_id@ }
            },
            ContractInstruction::CreateCommunity { name, description, avatar, rules } => {
                InstructionView::CreateCommunity {
                    name: name@,
                    description: description@,
                    avatar: avatar@,
                    rules: rules.deep_view(),
                }
            },
            ContractInstruction::JoinCommunity { community_id } => InstructionView::JoinCommunity {
                community_id,
            },
        }
    }
}

impl DeepView for ContractInstruction {
    type V = InstructionView;

    open spec fn deep_view(&self) -> InstructionView {
        self@
    }
}

/// The bytes of a command were read to their end.
pub open spec fn ends<T>(taken: Option<(T, Seq<u8>)>) -> bool {
    taken is Some && rest_of(taken).len() == 0
}

impl InstructionView {
    /// The byte that says which command this is: its place in the
    /// declaration.
    pub open spec fn tag(self) -> u8 {
        match self {
            InstructionView::CreateProfile { .. } => 0,
            InstructionView::UpdateProfile { .. } => 1,
            InstructionView::CreatePost { .. } => 2,
            InstructionView::LikePost { .. } => 3,
            InstructionView::CommentOnPost { .. } => 4,
            InstructionView::FollowProfile { .. } => 5,
            InstructionView::UnfollowProfile { .. } => 6,
            InstructionView::CreateCommunity { .. } => 7,
            InstructionView::JoinCommunity { .. } => 8,
        }
    }

    /// Whether the command reads the clock: the commands that create a
    /// profile, a post or a comment do, to date what they create.
    pub open spec fn reads_clock(self) -> bool {
        self is CreateProfile || self is CreatePost || self is CommentOnPost
    }

    /// The profile that a follow command names is an address.
    pub open spec fn well_formed(self) -> bool {
        match self {
            InstructionView::FollowProfile { profile_id } => profile_id.len() == 32,
            InstructionView::UnfollowProfile { profile_id } => profile_id.len() == 32,
            _ => true,
        }
    }

    /// Every text and list of the command can be written.
    pub open spec fn encodable(self) -> bool {
        match self {
            InstructionView::CreateProfile { username, bio, profile_image, cover_image } => {
                text_fits(username) && text_fits(bio) && text_fits(profile_image) && text_fits(
                    cover_image,
                )
            },
            InstructionView::UpdateProfile { bio, profile_image, cover_image } => {
                text_fits(bio) && text_fits(profile_image) && text_fits(cover_image)
            },
            InstructionView::CreatePost { content, images } => {
                text_fits(content) && texts_fit(images)
            },
            InstructionView::CommentOnPost { content, parent_id } => text_fits(content),
            InstructionView::CreateCommunity { name, description, avatar, rules } => {
                text_fits(name) && text_fits(description) && text_fits(avatar) && texts_fit(rules)
            },
            _ => true,
        }
    }

    /// The fields of the command, in their order.
    pub open spec fn fields(self) -> Seq<u8> {
        match self {
            InstructionView::CreateProfile { username, bio, profile_image, cover_image } => {
                text_bytes(username) + text_bytes(bio) + text_bytes(profile_image) + text_bytes(
                    cover_image,
                )
            },
            InstructionView::UpdateProfile { bio, profile_image, cover_image } => {
                text_bytes(bio) + text_bytes(profile_image) + text_bytes(cover_image)
            },
            InstructionView::CreatePost { content, images } => {
                text_bytes(content) + texts_bytes(images)
            },
            InstructionView::LikePost { post_id } => u64_bytes(post_id),
            InstructionView::CommentOnPost { content, parent_id } => {
                text_bytes(content) + u64_bytes(parent_id)
            },
            InstructionView::FollowProfile { profile_id } => profile_id,
            InstructionView::UnfollowProfile { profile_id } => profile_id,
            InstructionView::CreateCommunity { name, description, avatar, rules } => {
                text_bytes(name) + text_bytes(description) + text_bytes(avatar) + texts_bytes(
                    rules,
                )
            },
            InstructionView::JoinCommunity { community_id } => u64_bytes(community_id),
        }
    }

    /// The bytes of the command: its tag and its fields.
    pub open spec fn bytes(self) -> Seq<u8> {
        seq![self.tag()] + self.fields()
    }

    /// The bytes of the command, where it can be written.
    pub open spec fn encoding(self) -> Option<Seq<u8>> {
        if self.encodable() {
            Some(self.bytes())
        } else {
            None
        }
    }

    /// The command that `b` is the fields of, for the command of tag 0.
    pub open spec fn decode_create_profile(b: Seq<u8>) -> Option<InstructionView> {
        let username = take_text(b);
        let bio = take_text(rest_of(username));
        let profile_image = take_text(rest_of(bio));
        let cover_image = take_text(rest_of(profile_image));
        if username is Some && bio is Some && profile_image is Some && ends(cover_image) {
            Some(
                InstructionView::CreateProfile {
                    username: value_of(username),
                    bio: value_of(bio),
                    profile_image: value_of(profile_image),
                    cover_image: value_of(cover_image),
                },
            )
        } else {
            None
        }
    }

    /// The command that `b` is the fields of, for the command of tag 1.
    pub open spec fn decode_update_profile(b: Seq<u8>) -> Option<InstructionView> {
        let bio = take_text(b);
        let profile_image = take_text(rest_of(bio));
        let cover_image = take_text(rest_of(profile_image));
        if bio is Some && profile_image is Some && ends(cover_image) {
            Some(
                InstructionView::UpdateProfile {
                    bio: value_of(bio),
                    profile_image: value_of(profile_image),
                    cover_image: value_of(cover_image),
                },
            )
        } else {
            None
        }
    }

    /// The command that `b` is the fields of, for the command of tag 2.
    pub open spec fn decode_create_post(b: Seq<u8>) -> Option<InstructionView> {
        let content = take_text(b);
        let images = take_texts(rest_of(content));
        if content is Some && ends(images) {
            Some(
                InstructionView::CreatePost {
                    content: value_of(content),
                    images: value_of(images),
                },
            )
        } else {
            None
        }
    }

    /// The command that `b` is the fields of, for the command of tag 4.
    pub open spec fn decode_comment(b: Seq<u8>) -> Option<InstructionView> {
        let content = take_text(b);
        let parent_id = take_u64(rest_of(content));
        if content is Some && ends(parent_id) {
            Some(
                InstructionView::CommentOnPost {
                    content: value_of(content),
                    parent_id: value_of(parent_id),
                },
            )
        } else {
            None
        }
    }

    /// The command that `b` is the fields of, for the command of tag 7.
    pub open spec fn decode_create_community(b: Seq<u8>) -> Option<InstructionView> {
        let name = take_text(b);
        let description = take_text(rest_of(name));
        let avatar = take_text(rest_of(description));
        let rules = take_texts(rest_of(avatar));
        if name is Some && description is Some && avatar is Some && ends(rules) {
            Some(
                InstructionView::CreateCommunity {
                    name: value_of(name),
                    description: value_of(description),
                    avatar: value_of(avatar),
                    rules: value_of(rules),
                },
            )
        } else {
            None
        }
    }

    /// The command that `b` is the fields of, for the command of tag `tag`.
    pub open spec fn decode_fields(tag: u8, b: Seq<u8>) -> Option<InstructionView> {
        if tag == 0 {
            InstructionView::decode_create_profile(b)
        } else if tag == 1 {
            InstructionView::decode_update_profile(b)
        } else if tag == 2 {
            InstructionView::decode_create_post(b)
        } else if tag == 3 {
            if ends(take_u64(b)) {
                Some(InstructionView::LikePost { post_id: value_of(take_u64(b)) })
            } else {
                None
            }
        } else if tag == 4 {
            InstructionView::decode_comment(b)
        } else if tag == 5 {
            if ends(take_key(b)) {
                Some(InstructionView::FollowProfile { profile_id: value_of(take_key(b)) })
            } else {
                None
            }
        } else if tag == 6 {
            if ends(take_key(b)) {
                Some(InstructionView::UnfollowProfile { profile_id: value_of(take_key(b)) })
            } else {
                None
            }
        } else if tag == 7 {
            InstructionView::decode_create_community(b)
        } else if tag == 8 {
            if ends(take_u64(b)) {
                Some(InstructionView::JoinCommunity { community_id: value_of(take_u64(b)) })
            } else {
                None
            }
        } else {
            None
        }
    }

    /// The command that `b` carries: a tag, the fields of that command,
    /// and nothing behind them.
    pub open spec fn decode(b: Seq<u8>) -> Option<InstructionView> {
        match take_u8(b) {
            None => None,
            Some((tag, fields)) => InstructionView::decode_fields(tag, fields),
        }
    }
}

/// What a reader of a command's last field hands out where the bytes end
/// behind that field, and nothing where they do not.
fn last<T>(data: &[u8], field: Option<(T, usize)>) -> (r: Option<T>)
    ensures
        match field {
            Some((value, next)) => if next == data@.len() {
                r == Some(value)
            } else {
                r is None
            },
            None => r is None,
        },
{
    match field {
        Some((value, next)) => if next == data.len() {
            Some(value)
        } else {
            None
        },
        None => None,
    }
}

impl ContractInstruction {
    /// The command of tag 0 whose fields begin at `at`.
    fn read_create_profile(data: &[u8], at: usize) -> (r: Option<ContractInstruction>)
        requires
            at <= data@.len(),
        ensures
            r.deep_view() == InstructionView::decode_create_profile(data@.skip(at as int)),
            r matches Some(i) ==> i@.encodable() && i@.well_formed(),
    {
        let (username, at) = read_text(data, at)?;
        let (bio, at) = read_text(data, at)?;
        let (profile_image, at) = read_text(data, at)?;
        let cover_image = last(data, read_text(data, at))?;
        Some(ContractInstruction::CreateProfile { username, bio, profile_image, cover_image })
    }

    /// The command of tag 1 whose fields begin at `at`.
    fn read_update_profile(data: &[u8], at: usize) -> (r: Option<ContractInstruction>)
        requires
            at <= data@.len(),
        ensures
            r.deep_view() == InstructionView::decode_update_profile(data@.skip(at as int)),
            r matches Some(i) ==> i@.encodable() && i@.well_formed(),
    {
        let (bio, at) = read_text(data, at)?;
        let (profile_image, at) = read_text(data, at)?;
        let cover_image = last(data, read_text(data, at))?;
        Some(ContractInstruction::UpdateProfile { bio, profile_image, cover_image })
    }

    /// The command of tag 2 whose fields begin at `at`.
    fn read_create_post(data: &[u8], at: usize) -> (r: Option<ContractInstruction>)
        requires
            at <= data@.len(),
        ensures
            r.deep_view() == InstructionView::decode_create_post(data@.skip(at as int)),
            r matches Some(i) ==> i@.encodable() && i@.well_formed(),
    {
        let (content, at) = read_text(data, at)?;
        let images = last(data, read_texts(data, at))?;
        Some(ContractInstruction::CreatePost { content, images })
    }

    /// The command of tag 4 whose fields begin at `at`.
    fn read_comment(data: &[u8], at: usize) -> (r: Option<ContractInstruction>)
        requires
            at <= data@.len(),
        ensures
            r.deep_view() == InstructionView::decode_comment(data@.skip(at as int)),
            r matches Some(i) ==> i@.encodable() && i@.well_formed(),
    {
        let (content, at) = read_text(data, at)?;
        let parent_id = last(data, read_u64(data, at))?;
        Some(ContractInstruction::CommentOnPost { content, parent_id })
    }

    /// The command of tag 7 whose fields begin at `at`.
    fn read_create_community(data: &[u8], at: usize) -> (r: Option<ContractInstruction>)
        requires
            at <= data@.len(),
        ensures
            r.deep_view() == InstructionView::decode_create_community(data@.skip(at as int)),
            r matches Some(i) ==> i@.encodable() && i@.well_formed(),
    {
        let (name, at) = read_text(data, at)?;
        let (description, at) = read_text(data, at)?;
        let (avatar, at) = read_text(data, at)?;
        let rules = last(data, read_texts(data, at))?;
        Some(ContractInstruction::CreateCommunity { name, description, avatar, rules })
    }

    /// The command that `data` carries.
    pub fn decode(data: &[u8]) -> (r: Option<ContractInstruction>)
        ensures
            r.deep_view() == InstructionView::decode(data@),
            r matches Some(i) ==> i@.encodable() && i@.well_formed(),
    {
        assert(data@.skip(0) =~= data@);
        let (tag, at) = read_u8(data, 0)?;
        match tag {
            0 => ContractInstruction::read_create_profile(data, at),
            1 => ContractInstruction::read_update_profile(data, at),
            2 => ContractInstruction::read_create_post(data, at),
            3 => {
                let post_id = last(data, read_u64(data, at))?;
                Some(ContractInstruction::LikePost { post_id })
            },
            4 => ContractInstruction::read_comment(data, at),
            5 => {
                let profile_id = last(data, read_key(data, at))?;
                Some(ContractInstruction::FollowProfile { profile_id })
            },
            6 => {
                let profile_id = last(data, read_key(data, at))?;
                Some(ContractInstruction::UnfollowProfile { profile_id })
            },
            7 => ContractInstruction::read_create_community(data, at),
            8 => {
                let community_id = last(data, read_u64(data, at))?;
                Some(ContractInstruction::JoinCommunity { community_id })
            },
            _ => None,
        }
    }

    /// Whether the command reads the clock. For a command that does not,
    /// any reading may be handed to the processor.
    pub fn reads_clock(&self) -> (r: bool)
        ensures
            r == self@.reads_clock(),
    {
        match self {
            ContractInstruction::CreateProfile { .. } => true,
            ContractInstruction::CreatePost { .. } => true,
            ContractInstruction::CommentOnPost { .. } => true,
            _ => false,
        }
    }

    /// Reads the command that `data` carries.
    pub fn unpack(data: &[u8]) -> (r: Result<ContractInstruction, ErrorKind>)
        ensures
            match InstructionView::decode(data@) {
                Some(command) => r matches Ok(i) && i@ == command && i@.encodable()
                    && i@.well_formed(),
                None => r matches Err(e) && e == ErrorKind::InvalidCommand,
            },
    {
        match ContractInstruction::decode(data) {
            Some(i) => Ok(i),
            None => Err(ErrorKind::InvalidCommand),
        }
    }

    /// The bytes of the command, or nothing where one of its texts or
    /// lists is too long to be written.
    pub fn pack(&self) -> (r: Option<Vec<u8>>)
        ensures
            r.deep_view() == self@.encoding(),
    {
        let mut out: Vec<u8> = Vec::new();
        match self {
            ContractInstruction::CreateProfile { username, bio, profile_image, cover_image } => {
                if !text_len_fits(username) || !text_len_fits(bio) || !text_len_fits(
                    profile_image,
                ) || !text_len_fits(cover_image) {
                    return None;
                }
                out.push(0);
                put_text(&mut out, username);
                put_text(&mut out, bio);
                put_text(&mut out, profile_image);
                put_text(&mut out, cover_image);
            },
            ContractInstruction::UpdateProfile { bio, profile_image, cover_image } => {
                if !text_len_fits(bio) || !text_len_fits(profile_image) || !text_len_fits(
                    cover_image,
                ) {
                    return None;
                }
                out.push(1);
                put_text(&mut out, bio);
                put_text(&mut out, profile_image);
                put_text(&mut out, cover_image);
            },
            ContractInstruction::CreatePost { content, images } => {
                if !text_len_fits(content) || !texts_len_fit(images) {
                    return None;
                }
                out.push(2);
                put_text(&mut out, content);
                put_texts(&mut out, images);
            },
            ContractInstruction::LikePost { post_id } => {
                out.push(3);
                put_u64(&mut out, *post_id);
            },
            ContractInstruction::CommentOnPost { content, parent_id } => {
                if !text_len_fits(content) {
                    return None;
                }
                out.push(4);
                put_text(&mut out, content);
                put_u64(&mut out, *parent_id);
            },
            ContractInstruction::FollowProfile { profile_id } => {
                out.push(5);
                put_key(&mut out, profile_id);
            },
            ContractInstruction::UnfollowProfile { profile_id } => {
                out.push(6);
                put_key(&mut out, profile_id);
            },
            ContractInstruction::CreateCommunity { name, description, avatar, rules } => {
                if !text_len_fits(name) || !text_len_fits(description) || !text_len_fits(avatar)
                    || !texts_len_fit(rules) {
                    return None;
                }
                out.push(7);
                put_text(&mut out, name);
                put_text(&mut out, description);
                put_text(&mut out, avatar);
                put_texts(&mut out, rules);
            },
            ContractInstruction::JoinCommunity { community_id } => {
                out.push(8);
                put_u64(&mut out, *community_id);
            },
        }
        assert(out@ =~= self@.bytes());
        assert(out.deep_view() =~= out@);
        Some(out)
    }
}

/// Decoding what a command encodes to gives the command back.
pub proof fn lemma_instruction_round_trip(i: InstructionView)
    requires
        i.well_formed(),
        i.encodable(),
    ensures
        InstructionView::decode(i.bytes()) == Some(i),
{
    let none = Seq::<u8>::empty();
    lemma_take_u8(i.tag(), i.fields());
    match i {
        InstructionView::CreateProfile { username, bio, profile_image, cover_image } => {
            let r3 = text_bytes(cover_image) + none;
            let r2 = text_bytes(profile_image) + r3;
            let r1 = text_bytes(bio) + r2;
            let x1 = text_bytes(username);
            let x2 = x1 + text_bytes(bio);
            let x3 = x2 + text_bytes(profile_image);
            assert(i.fields() =~= i.fields() + none);
            lemma_regroup(x3, text_bytes(cover_image), none);
            lemma_regroup(x2, text_bytes(profile_image), r3);
            lemma_regroup(x1, text_bytes(bio), r2);
            lemma_take_text(username, r1);
            lemma_take_text(bio, r2);
            lemma_take_text(profile_image, r3);
            lemma_take_text(cover_image, none);
        },
        InstructionView::UpdateProfile { bio, profile_image, cover_image } => {
            let r2 = text_bytes(cover_image) + none;
            let r1 = text_bytes(profile_image) + r2;
            let x1 = text_bytes(bio);
            let x2 = x1 + text_bytes(profile_image);
            assert(i.fields() =~= i.fields() + none);
            lemma_regroup(x2, text_bytes(cover_image), none);
            lemma_regroup(x1, text_bytes(profile_image), r2);
            lemma_take_text(bio, r1);
            lemma_take_text(profile_image, r2);
            lemma_take_text(cover_image, none);
        },
        InstructionView::CreatePost { content, images } => {
            let r1 = texts_bytes(images) + none;
            assert(i.fields() =~= i.fields() + none);
            lemma_regroup(text_bytes(content), texts_bytes(images), none);
            lemma_take_text(content, r1);
            lemma_take_texts(images, none);
        },
        InstructionView::LikePost { post_id } => {
            assert(i.fields() =~= u64_bytes(post_id) + none);
            lemma_take_u64(post_id, none);
        },
        InstructionView::CommentOnPost { content, parent_id } => {
            let r1 = u64_bytes(parent_id) + none;
            assert(i.fields() =~= i.fields() + none);
            lemma_regroup(text_bytes(content), u64_bytes(parent_id), none);
            lemma_take_text(content, r1);
            lemma_take_u64(parent_id, none);
        },
        InstructionView::FollowProfile { profile_id } => {
            assert(i.fields() =~= profile_id + none);
            lemma_take_key(profile_id, none);
        },
        InstructionView::UnfollowProfile { profile_id } => {
            assert(i.fields() =~= profile_id + none);
            lemma_take_key(profile_id, none);
        },
        InstructionView::CreateCommunity { name, description, avatar, rules } => {
            let r3 = texts_bytes(rules) + none;
            let r2 = text_bytes(avatar) + r3;
            let r1 = text_bytes(description) + r2;
            let x1 = text_bytes(name);
            let x2 = x1 + text_bytes(description);
            let x3 = x2 + text_bytes(avatar);
            assert(i.fields() =~= i.fields() + none);
            lemma_regroup(x3, texts_bytes(rules), none);
            lemma_regroup(x2, text_bytes(avatar), r3);
            lemma_regroup(x1, text_bytes(description), r2);
            lemma_take_text(name, r1);
            lemma_take_text(description, r2);
            lemma_take_text(avatar, r3);
            lemma_take_texts(rules, none);
        },
        InstructionView::JoinCommunity { community_id } => {
            assert(i.fields() =~= u64_bytes(community_id) + none);
            lemma_take_u64(community_id, none);
        },
    }
}

} // verus!
