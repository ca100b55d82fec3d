//! What holds of the records and of the commands, whatever the accounts
//! and the arguments are.

use crate::account::AccountView;
use crate::error::{ErrorKind, ProcessError};
use crate::instruction::{lemma_instruction_round_trip, InstructionView};
use crate::processor::{written, Processor};
use crate::address::system_program_key;
use crate::rules::{
    is_sb_name, lemma_capped, COMMENT_SPACE, COMMUNITY_SPACE, MAX_TEXT_BYTES, POST_SPACE,
    PROFILE_SPACE,
};
use crate::state::{
    lemma_community_round_trip, lemma_community_size, lemma_decoded_community_fits,
    lemma_decoded_community_valid, lemma_decoded_post_fits, lemma_decoded_post_valid,
    lemma_decoded_profile_fits, lemma_decoded_profile_valid, lemma_post_round_trip,
    lemma_post_size, lemma_profile_round_trip, lemma_profile_size, CommunityView, PostView,
    ProfileView,
};
use crate::wire::{
    lemma_overwritten_twice, store_failure, stored, text_fits, texts_fit, twos,
};
use vstd::prelude::*;

verus! {

// ---------------------------------------------------------------------
// Records in buffers
// ---------------------------------------------------------------------

/// A profile that can be written is refused by a buffer exactly when it
/// is longer than the buffer; and where it is stored, the buffer decodes
/// to that profile, so nothing of it was cut off.
pub proof fn lemma_profile_stored(buffer: Seq<u8>, p: ProfileView)
    requires
        p.well_formed(),
        p.encodable(),
    ensures
        p.size() > buffer.len() <==> stored(buffer, p.encoding()) == Err::<Seq<u8>, ErrorKind>(
            ErrorKind::CapacityExceeded,
        ),
        p.size() <= buffer.len() <==> stored(buffer, p.encoding()) is Ok,
        stored(buffer, p.encoding()) matches Ok(data) ==> data.len() == buffer.len()
            && ProfileView::decode(data) == Some(p),
{
    lemma_profile_size(p);
    lemma_profile_round_trip(p, buffer.skip(p.bytes().len() as int));
}

/// A post that can be written is refused by a buffer exactly when it is
/// longer than the buffer; and where it is stored, the buffer decodes to
/// that post.
pub proof fn lemma_post_stored(buffer: Seq<u8>, p: PostView)
    requires
        p.well_formed(),
        p.encodable(),
    ensures
        p.size() > buffer.len() <==> stored(buffer, p.encoding()) == Err::<Seq<u8>, ErrorKind>(
            ErrorKind::CapacityExceeded,
        ),
        p.size() <= buffer.len() <==> stored(buffer, p.encoding()) is Ok,
        stored(buffer, p.encoding()) matches Ok(data) ==> data.len() == buffer.len()
            && PostView::decode(data) == Some(p),
{
    lemma_post_size(p);
    lemma_post_round_trip(p, buffer.skip(p.bytes().len() as int));
}

/// A community that can be written is refused by a buffer exactly when it
/// is longer than the buffer; and where it is stored, the buffer decodes
/// to that community.
pub proof fn lemma_community_stored(buffer: Seq<u8>, c: CommunityView)
    requires
        c.well_formed(),
        c.encodable(),
    ensures
        c.size() > buffer.len() <==> stored(buffer, c.encoding()) == Err::<Seq<u8>, ErrorKind>(
            ErrorKind::CapacityExceeded,
        ),
        c.size() <= buffer.len() <==> stored(buffer, c.encoding()) is Ok,
        stored(buffer, c.encoding()) matches Ok(data) ==> data.len() == buffer.len()
            && CommunityView::decode(data) == Some(c),
{
    lemma_community_size(c);
    lemma_community_round_trip(c, buffer.skip(c.bytes().len() as int));
}

// ---------------------------------------------------------------------
// Commands
// ---------------------------------------------------------------------

/// `UpdateProfile` is idempotent: the same update applied to what the
/// update left is accepted and leaves every account, byte for byte, as
/// the first update left it.
pub proof fn lemma_update_profile_idempotent(
    program_id: Seq<u8>,
    accounts: Seq<AccountView>,
    bio: Seq<char>,
    profile_image: Seq<char>,
    cover_image: Seq<char>,
)
    requires
        Processor::update_profile(program_id, accounts, bio, profile_image, cover_image) is Ok,
    ensures
        Processor::update_profile(
            program_id,
            Processor::update_profile(
                program_id,
                accounts,
                bio,
                profile_image,
                cover_image,
            ).unwrap().accounts,
            bio,
            profile_image,
            cover_image,
        ) == Processor::update_profile(program_id, accounts, bio, profile_image, cover_image),
{
    let first = Processor::update_profile(
        program_id,
        accounts,
        bio,
        profile_image,
        cover_image,
    ).unwrap();
    let buffer = accounts[1].data;
    lemma_decoded_profile_valid(buffer);
    let profile = ProfileView::decode(buffer).unwrap();
    let updated = ProfileView { bio, profile_image, cover_image, ..profile };
    lemma_profile_stored(buffer, updated);
    let data = stored(buffer, updated.encoding()).unwrap();
    assert(first.accounts == written(accounts, 1, data));
    assert(first.accounts[1].data == data);
    assert(ProfileView::decode(data) == Some(updated));
    let again = ProfileView { bio, profile_image, cover_image, ..updated };
    assert(again == updated);
    lemma_overwritten_twice(buffer, updated.bytes());
    assert(stored(data, updated.encoding()) == Ok::<Seq<u8>, ErrorKind>(data));
    assert(written(first.accounts, 1, data) =~= first.accounts);
}

/// `FollowProfile` and then `UnfollowProfile` of the same profile: the
/// unfollow is accepted, and both profiles decode to what they decoded to
/// before the follow, so both counters are back at their values.
pub proof fn lemma_follow_then_unfollow(
    program_id: Seq<u8>,
    accounts: Seq<AccountView>,
    profile_id: Seq<u8>,
)
    requires
        Processor::follow(program_id, accounts, profile_id) is Ok,
    ensures
        Processor::unfollow(
            program_id,
            Processor::follow(program_id, accounts, profile_id).unwrap().accounts,
            profile_id,
        ) matches Ok(after) && ProfileView::decode(after.accounts[1].data) == ProfileView::decode(
            accounts[1].data,
        ) && ProfileView::decode(after.accounts[2].data) == ProfileView::decode(
            accounts[2].data,
        ),
{
    let followed = ProfileView::decode(accounts[1].data).unwrap();
    let follower = ProfileView::decode(accounts[2].data).unwrap();
    lemma_decoded_profile_valid(accounts[1].data);
    lemma_decoded_profile_valid(accounts[2].data);
    let more_followers = Processor::gained(followed);
    let more_following = Processor::joined_in(follower);
    lemma_profile_stored(accounts[1].data, more_followers);
    lemma_profile_stored(accounts[2].data, more_following);
    let middle = Processor::follow(program_id, accounts, profile_id).unwrap().accounts;
    assert(ProfileView::decode(middle[1].data) == Some(more_followers));
    assert(ProfileView::decode(middle[2].data) == Some(more_following));
    assert(Processor::follow_pair(program_id, middle, profile_id) == Ok::<
        (ProfileView, ProfileView),
        ProcessError,
    >((more_followers, more_following)));
    let back_followed = Processor::lost(more_followers);
    let back_follower = Processor::dropped(more_following);
    assert(back_followed == followed);
    assert(back_follower == follower);
    lemma_profile_size(followed);
    lemma_profile_size(follower);
    lemma_profile_size(more_followers);
    lemma_profile_size(more_following);
    lemma_profile_stored(middle[1].data, followed);
    lemma_profile_stored(middle[2].data, follower);
}

/// `UnfollowProfile` never takes a counter below zero: where it is
/// accepted, each counter is one lower than it was, and a counter that
/// was zero is zero.
pub proof fn lemma_unfollow_counts(
    program_id: Seq<u8>,
    accounts: Seq<AccountView>,
    profile_id: Seq<u8>,
)
    requires
        Processor::unfollow(program_id, accounts, profile_id) is Ok,
    ensures
        ({
            let after = Processor::unfollow(program_id, accounts, profile_id).unwrap().accounts;
            let followed = ProfileView::decode(accounts[1].data).unwrap();
            let follower = ProfileView::decode(accounts[2].data).unwrap();
            &&& ProfileView::decode(after[1].data) == Some(Processor::lost(followed))
            &&& ProfileView::decode(after[2].data) == Some(Processor::dropped(follower))
            &&& Processor::lost(followed).owner == followed.owner
            &&& Processor::dropped(follower).owner == follower.owner
            &&& Processor::one_less(0) == 0
        }),
{
    let followed = ProfileView::decode(accounts[1].data).unwrap();
    let follower = ProfileView::decode(accounts[2].data).unwrap();
    lemma_decoded_profile_valid(accounts[1].data);
    lemma_decoded_profile_valid(accounts[2].data);
    lemma_profile_stored(accounts[1].data, Processor::lost(followed));
    lemma_profile_stored(accounts[2].data, Processor::dropped(follower));
}

/// `CreateProfile`, where it is accepted, leaves the account of the
/// profile owned by the program and holding the new profile: owned by the
/// caller, with a credit rating of 100 and every counter at zero.
pub proof fn lemma_create_profile_reads_back(
    program_id: Seq<u8>,
    accounts: Seq<AccountView>,
    derived: Option<(Seq<u8>, u8)>,
    username: Seq<char>,
    bio: Seq<char>,
    profile_image: Seq<char>,
    cover_image: Seq<char>,
    unix_timestamp: i64,
)
    requires
        accounts.len() >= 1 ==> accounts[0].well_formed(),
        Processor::create_profile(
            program_id,
            accounts,
            derived,
            username,
            bio,
            profile_image,
            cover_image,
            unix_timestamp,
        ) is Ok,
    ensures
        ({
            let after = Processor::create_profile(
                program_id,
                accounts,
                derived,
                username,
                bio,
                profile_image,
                cover_image,
                unix_timestamp,
            ).unwrap().accounts;
            let profile = Processor::new_profile(
                accounts[0].key,
                username,
                bio,
                profile_image,
                cover_image,
                unix_timestamp,
            );
            &&& after[1].owner == program_id
            &&& ProfileView::decode(after[1].data) == Some(profile)
            &&& profile.is_initialized
            &&& profile.owner == accounts[0].key
            &&& profile.user_credit_rating == 100
            &&& profile.posts_count == 0
            &&& profile.daily_post_count == 0
            &&& profile.followers_count == 0
            &&& profile.following_count == 0
        }),
{
    let profile = Processor::new_profile(
        accounts[0].key,
        username,
        bio,
        profile_image,
        cover_image,
        unix_timestamp,
    );
    let fresh = accounts[1].provisioned(program_id, PROFILE_SPACE as nat);
    lemma_profile_stored(fresh.data, profile);
}

/// `CreatePost`, where it is accepted, leaves the new post in its account
/// and the caller's profile with one post more: the post has the new
/// count of posts as its id, no likes, and the rating of no likes.
pub proof fn lemma_create_post_reads_back(
    program_id: Seq<u8>,
    accounts: Seq<AccountView>,
    content: Seq<char>,
    images: Seq<Seq<char>>,
    unix_timestamp: i64,
)
    requires
        accounts.len() >= 1 ==> accounts[0].well_formed(),
        Processor::create_post(program_id, accounts, content, images, unix_timestamp) is Ok,
    ensures
        ({
            let after = Processor::create_post(
                program_id,
                accounts,
                content,
                images,
                unix_timestamp,
            ).unwrap().accounts;
            let profile = ProfileView::decode(accounts[2].data).unwrap();
            let posted = Processor::posted(profile, twos(unix_timestamp));
            let post = Processor::new_post(
                posted.posts_count,
                accounts[0].key,
                content,
                twos(unix_timestamp),
                images,
            );
            &&& after[1].owner == program_id
            &&& PostView::decode(after[1].data) == Some(post)
            &&& ProfileView::decode(after[2].data) == Some(posted)
            &&& post.id == profile.posts_count + 1
            &&& post.rated()
            &&& posted.owner == profile.owner
        }),
{
    let profile = ProfileView::decode(accounts[2].data).unwrap();
    lemma_decoded_profile_valid(accounts[2].data);
    let posted = Processor::posted(profile, twos(unix_timestamp));
    let post = Processor::new_post(
        posted.posts_count,
        accounts[0].key,
        content,
        twos(unix_timestamp),
        images,
    );
    let fresh = accounts[1].provisioned(program_id, POST_SPACE as nat);
    lemma_post_stored(fresh.data, post);
    lemma_profile_stored(accounts[2].data, posted);
}

/// `LikePost`, where it is accepted, leaves the post with one like more
/// and the rating that its likes earn, and its author with a credit
/// rating one higher.
pub proof fn lemma_like_post_reads_back(
    program_id: Seq<u8>,
    accounts: Seq<AccountView>,
    post_id: u64,
)
    requires
        Processor::like_post(program_id, accounts, post_id) is Ok,
    ensures
        ({
            let after = Processor::like_post(program_id, accounts, post_id).unwrap().accounts;
            let post = PostView::decode(accounts[1].data).unwrap();
            let author = ProfileView::decode(accounts[2].data).unwrap();
            &&& PostView::decode(after[1].data) == Some(Processor::liked(post))
            &&& ProfileView::decode(after[2].data) == Some(Processor::credited(author))
            &&& Processor::liked(post).likes == post.likes + 1
            &&& Processor::liked(post).rated()
            &&& Processor::liked(post).id == post.id
            &&& Processor::liked(post).author == post.author
            &&& Processor::credited(author).user_credit_rating == author.user_credit_rating + 1
            &&& Processor::credited(author).owner == author.owner
        }),
{
    let post = PostView::decode(accounts[1].data).unwrap();
    let author = ProfileView::decode(accounts[2].data).unwrap();
    lemma_decoded_post_valid(accounts[1].data);
    lemma_decoded_profile_valid(accounts[2].data);
    lemma_post_stored(accounts[1].data, Processor::liked(post));
    lemma_profile_stored(accounts[2].data, Processor::credited(author));
}

/// `CommentOnPost`, where it is accepted, leaves the comment in its
/// account, the post commented on with one comment more, and the caller's
/// profile with one post more, whose count is the id of the comment.
pub proof fn lemma_comment_reads_back(
    program_id: Seq<u8>,
    accounts: Seq<AccountView>,
    content: Seq<char>,
    parent_id: u64,
    unix_timestamp: i64,
)
    requires
        accounts.len() >= 1 ==> accounts[0].well_formed(),
        Processor::comment(program_id, accounts, content, parent_id, unix_timestamp) is Ok,
    ensures
        ({
            let after = Processor::comment(
                program_id,
                accounts,
                content,
                parent_id,
                unix_timestamp,
            ).unwrap().accounts;
            let parent = PostView::decode(accounts[2].data).unwrap();
            let profile = ProfileView::decode(accounts[3].data).unwrap();
            let reply = Processor::new_post(
                Processor::replied(profile).posts_count,
                accounts[0].key,
                content,
                twos(unix_timestamp),
                Seq::empty(),
            );
            &&& after[1].owner == program_id
            &&& PostView::decode(after[1].data) == Some(reply)
            &&& PostView::decode(after[2].data) == Some(Processor::commented(parent))
            &&& ProfileView::decode(after[3].data) == Some(Processor::replied(profile))
            &&& reply.id == profile.posts_count + 1
            &&& reply.rated()
            &&& Processor::commented(parent).comments == parent.comments + 1
            &&& Processor::commented(parent).id == parent.id
            &&& Processor::commented(parent).author == parent.author
            &&& Processor::replied(profile).owner == profile.owner
        }),
{
    let parent = PostView::decode(accounts[2].data).unwrap();
    let profile = ProfileView::decode(accounts[3].data).unwrap();
    lemma_decoded_post_valid(accounts[2].data);
    lemma_decoded_profile_valid(accounts[3].data);
    let reply = Processor::new_post(
        Processor::replied(profile).posts_count,
        accounts[0].key,
        content,
        twos(unix_timestamp),
        Seq::empty(),
    );
    let fresh = accounts[1].provisioned(program_id, COMMENT_SPACE as nat);
    lemma_post_stored(fresh.data, reply);
    lemma_post_stored(accounts[2].data, Processor::commented(parent));
    lemma_profile_stored(accounts[3].data, Processor::replied(profile));
}

/// `CreateCommunity`, where it is accepted, leaves the new community in
/// its account: owned by the caller, with one member.
pub proof fn lemma_create_community_reads_back(
    program_id: Seq<u8>,
    accounts: Seq<AccountView>,
    name: Seq<char>,
    description: Seq<char>,
    avatar: Seq<char>,
    rules: Seq<Seq<char>>,
)
    requires
        accounts.len() >= 1 ==> accounts[0].well_formed(),
        Processor::create_community(program_id, accounts, name, description, avatar, rules) is Ok,
    ensures
        ({
            let after = Processor::create_community(
                program_id,
                accounts,
                name,
                description,
                avatar,
                rules,
            ).unwrap().accounts;
            let community = Processor::new_community(
                accounts[0].key,
                name,
                description,
                avatar,
                rules,
            );
            &&& after[1].owner == program_id
            &&& CommunityView::decode(after[1].data) == Some(community)
            &&& community.member_count == 1
            &&& community.is_sb_community == is_sb_name(name)
        }),
{
    let community = Processor::new_community(accounts[0].key, name, description, avatar, rules);
    let fresh = accounts[1].provisioned(program_id, COMMUNITY_SPACE as nat);
    lemma_community_stored(fresh.data, community);
}

/// `JoinCommunity`, where it is accepted, leaves the community with one
/// member more, so with one member at least.
pub proof fn lemma_join_community_reads_back(
    program_id: Seq<u8>,
    accounts: Seq<AccountView>,
    community_id: u64,
)
    requires
        Processor::join_community(program_id, accounts, community_id) is Ok,
    ensures
        ({
            let after = Processor::join_community(
                program_id,
                accounts,
                community_id,
            ).unwrap().accounts;
            let community = CommunityView::decode(accounts[1].data).unwrap();
            &&& CommunityView::decode(after[1].data) == Some(Processor::joined(community))
            &&& Processor::joined(community).member_count == community.member_count + 1
            &&& Processor::joined(community).member_count >= 1
        }),
{
    let community = CommunityView::decode(accounts[1].data).unwrap();
    lemma_decoded_community_valid(accounts[1].data);
    lemma_community_stored(accounts[1].data, Processor::joined(community));
}

/// `UpdateProfile`, where it is accepted, leaves the profile with the new
/// bio and images and with everything else, its owner too, as it was.
pub proof fn lemma_update_profile_reads_back(
    program_id: Seq<u8>,
    accounts: Seq<AccountView>,
    bio: Seq<char>,
    profile_image: Seq<char>,
    cover_image: Seq<char>,
)
    requires
        Processor::update_profile(program_id, accounts, bio, profile_image, cover_image) is Ok,
    ensures
        ({
            let after = Processor::update_profile(
                program_id,
                accounts,
                bio,
                profile_image,
                cover_image,
            ).unwrap().accounts;
            let profile = ProfileView::decode(accounts[1].data).unwrap();
            ProfileView::decode(after[1].data) == Some(
                ProfileView { bio, profile_image, cover_image, ..profile },
            )
        }),
{
    let profile = ProfileView::decode(accounts[1].data).unwrap();
    lemma_decoded_profile_valid(accounts[1].data);
    lemma_profile_stored(
        accounts[1].data,
        ProfileView { bio, profile_image, cover_image, ..profile },
    );
}

/// A command that does not read the clock comes to the same at every
/// reading of the clock.
pub proof fn lemma_clock_matters_only_where_read(
    program_id: Seq<u8>,
    accounts: Seq<AccountView>,
    command: InstructionView,
    derived: Option<(Seq<u8>, u8)>,
    earlier: i64,
    later: i64,
)
    requires
        !command.reads_clock(),
    ensures
        Processor::execute(program_id, accounts, command, derived, earlier) == Processor::execute(
            program_id,
            accounts,
            command,
            derived,
            later,
        ),
{
}

/// What no command changes: how many accounts there are, their keys and
/// signatures, and the caller's account; and the owner of an account
/// changes to this program only. Of two accounts that lie at one address
/// a command writes one at most, so no buffer is written twice.
pub open spec fn framed(
    program_id: Seq<u8>,
    before: Seq<AccountView>,
    after: Seq<AccountView>,
) -> bool {
    &&& after.len() == before.len()
    &&& before.len() > 0 ==> after[0] == before[0]
    &&& forall|slot: int|
        0 <= slot < before.len() ==> {
            &&& (#[trigger] after[slot]).key == before[slot].key
            &&& after[slot].is_signer == before[slot].is_signer
            &&& (after[slot].owner == before[slot].owner || after[slot].owner == program_id)
        }
    &&& forall|one: int, other: int|
        0 <= one < other < before.len() && before[one].key == before[other].key ==> (
        #[trigger] after[one]).data == before[one].data || (#[trigger] after[other]).data
            == before[other].data
}

proof fn lemma_profile_commands_framed(
    program_id: Seq<u8>,
    accounts: Seq<AccountView>,
    derived: Option<(Seq<u8>, u8)>,
    username: Seq<char>,
    bio: Seq<char>,
    profile_image: Seq<char>,
    cover_image: Seq<char>,
    unix_timestamp: i64,
)
    ensures
        Processor::create_profile(
            program_id,
            accounts,
            derived,
            username,
            bio,
            profile_image,
            cover_image,
            unix_timestamp,
        ) matches Ok(t) ==> framed(program_id, accounts, t.accounts),
        Processor::update_profile(program_id, accounts, bio, profile_image, cover_image) matches Ok(
            t,
        ) ==> framed(program_id, accounts, t.accounts),
{
}

proof fn lemma_post_commands_framed(
    program_id: Seq<u8>,
    accounts: Seq<AccountView>,
    content: Seq<char>,
    images: Seq<Seq<char>>,
    id: u64,
    unix_timestamp: i64,
)
    ensures
        Processor::create_post(program_id, accounts, content, images, unix_timestamp) matches Ok(
            t,
        ) ==> framed(program_id, accounts, t.accounts),
        Processor::like_post(program_id, accounts, id) matches Ok(t) ==> framed(
            program_id,
            accounts,
            t.accounts,
        ),
{
}

proof fn lemma_comment_framed(
    program_id: Seq<u8>,
    accounts: Seq<AccountView>,
    content: Seq<char>,
    id: u64,
    unix_timestamp: i64,
)
    ensures
        Processor::comment(program_id, accounts, content, id, unix_timestamp) matches Ok(t)
            ==> framed(program_id, accounts, t.accounts),
{
}

proof fn lemma_follow_commands_framed(
    program_id: Seq<u8>,
    accounts: Seq<AccountView>,
    profile_id: Seq<u8>,
)
    ensures
        Processor::follow(program_id, accounts, profile_id) matches Ok(t) ==> framed(
            program_id,
            accounts,
            t.accounts,
        ),
        Processor::unfollow(program_id, accounts, profile_id) matches Ok(t) ==> framed(
            program_id,
            accounts,
            t.accounts,
        ),
{
}

proof fn lemma_community_commands_framed(
    program_id: Seq<u8>,
    accounts: Seq<AccountView>,
    name: Seq<char>,
    description: Seq<char>,
    avatar: Seq<char>,
    rules: Seq<Seq<char>>,
    community_id: u64,
)
    ensures
        Processor::create_community(
            program_id,
            accounts,
            name,
            description,
            avatar,
            rules,
        ) matches Ok(t) ==> framed(program_id, accounts, t.accounts),
        Processor::join_community(program_id, accounts, community_id) matches Ok(t) ==> framed(
            program_id,
            accounts,
            t.accounts,
        ),
{
}

/// A command that goes through changes no key and no signature, leaves
/// the caller's account as it was, changes the owner of no account but of
/// the one that it provisions for this program, and writes no two
/// accounts that lie at one address.
pub proof fn lemma_commands_keep_the_frame(
    program_id: Seq<u8>,
    accounts: Seq<AccountView>,
    command: InstructionView,
    derived: Option<(Seq<u8>, u8)>,
    unix_timestamp: i64,
)
    ensures
        Processor::execute(program_id, accounts, command, derived, unix_timestamp) matches Ok(
            t,
        ) ==> framed(program_id, accounts, t.accounts),
{
    match command {
        InstructionView::CreateProfile { username, bio, profile_image, cover_image } => {
            lemma_profile_commands_framed(
                program_id,
                accounts,
                derived,
                username,
                bio,
                profile_image,
                cover_image,
                unix_timestamp,
            );
        },
        InstructionView::UpdateProfile { bio, profile_image, cover_image } => {
            lemma_profile_commands_framed(
                program_id,
                accounts,
                derived,
                Seq::empty(),
                bio,
                profile_image,
                cover_image,
                unix_timestamp,
            );
        },
        InstructionView::CreatePost { content, images } => {
            lemma_post_commands_framed(program_id, accounts, content, images, 0, unix_timestamp);
        },
        InstructionView::LikePost { post_id } => {
            lemma_post_commands_framed(
                program_id,
                accounts,
                Seq::empty(),
                Seq::empty(),
                post_id,
                unix_timestamp,
            );
        },
        InstructionView::CommentOnPost { content, parent_id } => {
            lemma_comment_framed(program_id, accounts, content, parent_id, unix_timestamp);
        },
        InstructionView::FollowProfile { profile_id } => {
            lemma_follow_commands_framed(program_id, accounts, profile_id);
        },
        InstructionView::UnfollowProfile { profile_id } => {
            lemma_follow_commands_framed(program_id, accounts, profile_id);
        },
        InstructionView::CreateCommunity { name, description, avatar, rules } => {
            lemma_community_commands_framed(
                program_id,
                accounts,
                name,
                description,
                avatar,
                rules,
                0,
            );
        },
        InstructionView::JoinCommunity { community_id } => {
            lemma_community_commands_framed(
                program_id,
                accounts,
                Seq::empty(),
                Seq::empty(),
                Seq::empty(),
                Seq::empty(),
                community_id,
            );
        },
    }
}

/// `FollowProfile`, where it is accepted, leaves the followed profile
/// with one follower more and the caller's profile following one more,
/// and both with their owners.
pub proof fn lemma_follow_reads_back(
    program_id: Seq<u8>,
    accounts: Seq<AccountView>,
    profile_id: Seq<u8>,
)
    requires
        Processor::follow(program_id, accounts, profile_id) is Ok,
    ensures
        ({
            let after = Processor::follow(program_id, accounts, profile_id).unwrap().accounts;
            let followed = ProfileView::decode(accounts[1].data).unwrap();
            let follower = ProfileView::decode(accounts[2].data).unwrap();
            &&& ProfileView::decode(after[1].data) == Some(Processor::gained(followed))
            &&& ProfileView::decode(after[2].data) == Some(Processor::joined_in(follower))
            &&& Processor::gained(followed).followers_count == followed.followers_count + 1
            &&& Processor::joined_in(follower).following_count == follower.following_count + 1
            &&& Processor::gained(followed).owner == followed.owner
            &&& Processor::joined_in(follower).owner == follower.owner
        }),
{
    let followed = ProfileView::decode(accounts[1].data).unwrap();
    let follower = ProfileView::decode(accounts[2].data).unwrap();
    lemma_decoded_profile_valid(accounts[1].data);
    lemma_decoded_profile_valid(accounts[2].data);
    lemma_profile_stored(accounts[1].data, Processor::gained(followed));
    lemma_profile_stored(accounts[2].data, Processor::joined_in(follower));
}

/// The bytes of a command come to what the command comes to.
pub proof fn lemma_packed_command_is_executed(
    program_id: Seq<u8>,
    accounts: Seq<AccountView>,
    command: InstructionView,
    unix_timestamp: i64,
)
    requires
        command.well_formed(),
        command.encodable(),
    ensures
        Processor::outcome(program_id, accounts, command.bytes(), unix_timestamp)
            == Processor::execute(
            program_id,
            accounts,
            command,
            Processor::derived_for(program_id, accounts, command),
            unix_timestamp,
        ),
{
    lemma_instruction_round_trip(command);
}

// ---------------------------------------------------------------------
// When a command goes through
// ---------------------------------------------------------------------

/// A record that was read from a buffer and changed in its numbers and
/// flags only fits that buffer again: a profile decoded from `buffer`
/// and another with the same texts are stored there.
pub proof fn lemma_profile_fits_again(buffer: Seq<u8>, changed: ProfileView)
    requires
        ProfileView::decode(buffer) matches Some(p) && changed.owner == p.owner
            && changed.username == p.username && changed.bio == p.bio && changed.profile_image
            == p.profile_image && changed.cover_image == p.cover_image,
    ensures
        store_failure(buffer.len(), changed.encoding()) is None,
{
    lemma_decoded_profile_valid(buffer);
    lemma_decoded_profile_fits(buffer);
    lemma_profile_size(changed);
}

/// A post decoded from `buffer` and another with the same content and
/// images are stored there.
pub proof fn lemma_post_fits_again(buffer: Seq<u8>, changed: PostView)
    requires
        PostView::decode(buffer) matches Some(p) && changed.author == p.author && changed.content
            == p.content && changed.images == p.images,
    ensures
        store_failure(buffer.len(), changed.encoding()) is None,
{
    lemma_decoded_post_valid(buffer);
    lemma_decoded_post_fits(buffer);
    lemma_post_size(changed);
}

/// A community decoded from `buffer` and another with the same texts and
/// rules are stored there.
pub proof fn lemma_community_fits_again(buffer: Seq<u8>, changed: CommunityView)
    requires
        CommunityView::decode(buffer) matches Some(c) && changed.owner == c.owner && changed.name
            == c.name && changed.description == c.description && changed.avatar == c.avatar
            && changed.rules == c.rules,
    ensures
        store_failure(buffer.len(), changed.encoding()) is None,
{
    lemma_decoded_community_valid(buffer);
    lemma_decoded_community_fits(buffer);
    lemma_community_size(changed);
}

/// `LikePost` goes through exactly where the caller signed, the program
/// owns the two accounts, which lie at two addresses, the post has the id
/// that was named, the profile is that of its author, and neither the
/// likes nor the credit rating are at their maximum.
pub proof fn lemma_like_post_accepted(
    program_id: Seq<u8>,
    accounts: Seq<AccountView>,
    post_id: u64,
)
    ensures
        Processor::like_post(program_id, accounts, post_id) is Ok <==> {
            &&& accounts.len() >= 3
            &&& accounts[0].is_signer
            &&& accounts[1].owner == program_id
            &&& accounts[2].owner == program_id
            &&& accounts[1].key != accounts[2].key
            &&& PostView::decode(accounts[1].data) matches Some(post)
            &&& ProfileView::decode(accounts[2].data) matches Some(author)
            &&& post.id == post_id
            &&& author.owner == post.author
            &&& post.likes < u64::MAX
            &&& author.user_credit_rating < i64::MAX
        },
{
    if accounts.len() >= 3 {
        if let Some(post) = PostView::decode(accounts[1].data) {
            lemma_post_fits_again(accounts[1].data, Processor::liked(post));
        }
        if let Some(author) = ProfileView::decode(accounts[2].data) {
            lemma_profile_fits_again(accounts[2].data, Processor::credited(author));
        }
    }
}

/// `FollowProfile` goes through exactly where `follow_pair` finds the two
/// profiles and neither counter is at its maximum, and `UnfollowProfile`
/// exactly where `follow_pair` finds the two profiles. `follow_pair` finds
/// them exactly where the caller signed, the program owns the two
/// accounts, the followed one lies at the address that was named and the
/// other one elsewhere, both decode, and the caller owns the second.
pub proof fn lemma_follow_accepted(
    program_id: Seq<u8>,
    accounts: Seq<AccountView>,
    profile_id: Seq<u8>,
)
    ensures
        Processor::follow_pair(program_id, accounts, profile_id) is Ok <==> {
            &&& accounts.len() >= 3
            &&& accounts[0].is_signer
            &&& accounts[1].owner == program_id
            &&& accounts[2].owner == program_id
            &&& accounts[1].key == profile_id
            &&& accounts[1].key != accounts[2].key
            &&& ProfileView::decode(accounts[1].data) is Some
            &&& ProfileView::decode(accounts[2].data) matches Some(follower)
            &&& follower.owner == accounts[0].key
        },
        Processor::follow(program_id, accounts, profile_id) is Ok <==> {
            &&& Processor::follow_pair(program_id, accounts, profile_id) matches Ok(pair)
            &&& pair.0.followers_count < u64::MAX
            &&& pair.1.following_count < u64::MAX
        },
        Processor::unfollow(program_id, accounts, profile_id) is Ok <==> Processor::follow_pair(
            program_id,
            accounts,
            profile_id,
        ) is Ok,
{
    if let Ok((followed, follower)) = Processor::follow_pair(program_id, accounts, profile_id) {
        lemma_profile_fits_again(accounts[1].data, Processor::gained(followed));
        lemma_profile_fits_again(accounts[2].data, Processor::joined_in(follower));
        lemma_profile_fits_again(accounts[1].data, Processor::lost(followed));
        lemma_profile_fits_again(accounts[2].data, Processor::dropped(follower));
    }
}

/// `JoinCommunity` goes through exactly where the caller signed, the
/// program owns the account, the community in it has the id that was
/// named, and its members are not at their maximum.
pub proof fn lemma_join_community_accepted(
    program_id: Seq<u8>,
    accounts: Seq<AccountView>,
    community_id: u64,
)
    ensures
        Processor::join_community(program_id, accounts, community_id) is Ok <==> {
            &&& accounts.len() >= 2
            &&& accounts[0].is_signer
            &&& accounts[1].owner == program_id
            &&& CommunityView::decode(accounts[1].data) matches Some(community)
            &&& community.id == community_id
            &&& community.member_count < u64::MAX
        },
{
    if accounts.len() >= 2 {
        if let Some(community) = CommunityView::decode(accounts[1].data) {
            lemma_community_fits_again(accounts[1].data, Processor::joined(community));
        }
    }
}

/// `UpdateProfile` goes through exactly where the caller signed, the
/// program owns the account, the caller owns the profile in it, and the
/// profile with its new bio and images is no longer than the account.
pub proof fn lemma_update_profile_accepted(
    program_id: Seq<u8>,
    accounts: Seq<AccountView>,
    bio: Seq<char>,
    profile_image: Seq<char>,
    cover_image: Seq<char>,
)
    ensures
        Processor::update_profile(program_id, accounts, bio, profile_image, cover_image) is Ok
            <==> {
            &&& accounts.len() >= 2
            &&& accounts[0].is_signer
            &&& accounts[1].owner == program_id
            &&& ProfileView::decode(accounts[1].data) matches Some(profile)
            &&& profile.owner == accounts[0].key
            &&& text_fits(bio)
            &&& text_fits(profile_image)
            &&& text_fits(cover_image)
            &&& (ProfileView { bio, profile_image, cover_image, ..profile }).size()
                <= accounts[1].data.len()
        },
{
    if accounts.len() >= 2 {
        lemma_decoded_profile_valid(accounts[1].data);
        if let Some(profile) = ProfileView::decode(accounts[1].data) {
            lemma_profile_size(ProfileView { bio, profile_image, cover_image, ..profile });
        }
    }
}

/// `CreatePost` goes through exactly where the caller signed, the program
/// owns the account of the profile, which lies elsewhere than that of the
/// post, the caller owns the profile, its counts are not at their maximum,
/// and the post is no longer than its account: than 2048 bytes where the
/// account is created, than the account as it is else.
pub proof fn lemma_create_post_accepted(
    program_id: Seq<u8>,
    accounts: Seq<AccountView>,
    content: Seq<char>,
    images: Seq<Seq<char>>,
    unix_timestamp: i64,
)
    requires
        accounts.len() >= 1 ==> accounts[0].well_formed(),
    ensures
        Processor::create_post(program_id, accounts, content, images, unix_timestamp) is Ok <==> {
            &&& accounts.len() >= 4
            &&& accounts[0].is_signer
            &&& accounts[2].owner == program_id
            &&& accounts[1].key != accounts[2].key
            &&& ProfileView::decode(accounts[2].data) matches Some(profile)
            &&& profile.owner == accounts[0].key
            &&& profile.posts_count < u64::MAX
            &&& Processor::posts_today(profile, twos(unix_timestamp)) < u64::MAX
            &&& text_fits(content)
            &&& texts_fit(images)
            &&& Processor::new_post(
                (profile.posts_count + 1) as u64,
                accounts[0].key,
                content,
                twos(unix_timestamp),
                images,
            ).size() <= accounts[1].provisioned(program_id, POST_SPACE as nat).data.len()
        },
{
    if accounts.len() >= 4 {
        if let Some(profile) = ProfileView::decode(accounts[2].data) {
            let now = twos(unix_timestamp);
            lemma_profile_fits_again(accounts[2].data, Processor::posted(profile, now));
            lemma_post_size(
                Processor::new_post(
                    (profile.posts_count + 1) as u64,
                    accounts[0].key,
                    content,
                    now,
                    images,
                ),
            );
        }
    }
}

/// `CommentOnPost` goes through exactly where the caller signed, the
/// program owns the accounts of the post and of the profile, the three
/// accounts that are written lie at three addresses, the post has the id
/// that was named, the caller owns the profile, neither count is at its
/// maximum, and the comment is no longer than its account: than 1024
/// bytes where the account is created, than the account as it is else.
pub proof fn lemma_comment_accepted(
    program_id: Seq<u8>,
    accounts: Seq<AccountView>,
    content: Seq<char>,
    parent_id: u64,
    unix_timestamp: i64,
)
    requires
        accounts.len() >= 1 ==> accounts[0].well_formed(),
    ensures
        Processor::comment(program_id, accounts, content, parent_id, unix_timestamp) is Ok <==> {
            &&& accounts.len() >= 5
            &&& accounts[0].is_signer
            &&& accounts[2].owner == program_id
            &&& accounts[3].owner == program_id
            &&& accounts[1].key != accounts[2].key
            &&& accounts[1].key != accounts[3].key
            &&& accounts[2].key != accounts[3].key
            &&& PostView::decode(accounts[2].data) matches Some(parent)
            &&& ProfileView::decode(accounts[3].data) matches Some(profile)
            &&& parent.id == parent_id
            &&& profile.owner == accounts[0].key
            &&& profile.posts_count < u64::MAX
            &&& parent.comments < u64::MAX
            &&& text_fits(content)
            &&& Processor::new_post(
                (profile.posts_count + 1) as u64,
                accounts[0].key,
                content,
                twos(unix_timestamp),
                Seq::empty(),
            ).size() <= accounts[1].provisioned(program_id, COMMENT_SPACE as nat).data.len()
        },
{
    if accounts.len() >= 5 {
        if let Some(parent) = PostView::decode(accounts[2].data) {
            lemma_post_fits_again(accounts[2].data, Processor::commented(parent));
        }
        if let Some(profile) = ProfileView::decode(accounts[3].data) {
            lemma_profile_fits_again(accounts[3].data, Processor::replied(profile));
            lemma_post_size(
                Processor::new_post(
                    (profile.posts_count + 1) as u64,
                    accounts[0].key,
                    content,
                    twos(unix_timestamp),
                    Seq::empty(),
                ),
            );
        }
    }
}

/// `CreateProfile` goes through exactly where the caller signed, the
/// third account is the system program, the account of the profile lies
/// at the derived address, and the new profile is no longer than its
/// account: than 512 bytes where the account is provisioned, than the
/// account as it is else.
pub proof fn lemma_create_profile_accepted(
    program_id: Seq<u8>,
    accounts: Seq<AccountView>,
    derived: Option<(Seq<u8>, u8)>,
    username: Seq<char>,
    bio: Seq<char>,
    profile_image: Seq<char>,
    cover_image: Seq<char>,
    unix_timestamp: i64,
)
    requires
        accounts.len() >= 1 ==> accounts[0].well_formed(),
    ensures
        Processor::create_profile(
            program_id,
            accounts,
            derived,
            username,
            bio,
            profile_image,
            cover_image,
            unix_timestamp,
        ) is Ok <==> {
            &&& accounts.len() >= 3
            &&& accounts[0].is_signer
            &&& accounts[2].key == system_program_key()
            &&& derived matches Some(found)
            &&& found.0 == accounts[1].key
            &&& Processor::new_profile(
                accounts[0].key,
                username,
                bio,
                profile_image,
                cover_image,
                unix_timestamp,
            ).size() <= accounts[1].provisioned(program_id, PROFILE_SPACE as nat).data.len()
        },
{
    let profile = Processor::new_profile(
        accounts[0].key,
        username,
        bio,
        profile_image,
        cover_image,
        unix_timestamp,
    );
    if accounts.len() >= 3 {
        lemma_profile_size(profile);
        lemma_capped(username, MAX_TEXT_BYTES as int);
        lemma_capped(bio, MAX_TEXT_BYTES as int);
        lemma_capped(profile_image, MAX_TEXT_BYTES as int);
        lemma_capped(cover_image, MAX_TEXT_BYTES as int);
    }
}

/// `CreateCommunity` goes through exactly where the caller signed and the
/// community is no longer than its account: than 2048 bytes where the
/// account is created, than the account as it is else.
pub proof fn lemma_create_community_accepted(
    program_id: Seq<u8>,
    accounts: Seq<AccountView>,
    name: Seq<char>,
    description: Seq<char>,
    avatar: Seq<char>,
    rules: Seq<Seq<char>>,
)
    requires
        accounts.len() >= 1 ==> accounts[0].well_formed(),
    ensures
        Processor::create_community(program_id, accounts, name, description, avatar, rules) is Ok
            <==> {
            &&& accounts.len() >= 3
            &&& accounts[0].is_signer
            &&& text_fits(name)
            &&& text_fits(description)
            &&& text_fits(avatar)
            &&& texts_fit(rules)
            &&& Processor::new_community(accounts[0].key, name, description, avatar, rules).size()
                <= accounts[1].provisioned(program_id, COMMUNITY_SPACE as nat).data.len()
        },
{
    if accounts.len() >= 3 {
        lemma_community_size(
            Processor::new_community(accounts[0].key, name, description, avatar, rules),
        );
    }
}

} // verus!
