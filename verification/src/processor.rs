//! The command processor: for each command, what it checks, in which
//! order, and what it writes.
//!
//! A command either goes through, and the accounts are as its transition
//! says, or it is refused, and every account is as it was. The host
//! provisions the accounts that the transition names before it commits
//! what was written.

use crate::account::{Account, AccountView, ProvisionStep, StepView};
use crate::address::{find_program_address, program_address, system_program_id, system_program_key,
    Pubkey};
use crate::error::{failure_at, ErrorKind, ProcessError};
use crate::instruction::{ContractInstruction, InstructionView};
use crate::rules::{
    capped, day_passed, has_sb_prefix, is_new_day, is_sb_name, truncate, COMMENT_SPACE,
    COMMUNITY_SPACE, INITIAL_CREDIT_RATING, MAX_TEXT_BYTES, POST_SPACE, PROFILE_SPACE,
};
use crate::state::{
    unpack_community_from_slice, unpack_post_from_slice, unpack_profile_from_slice, Community,
    CommunityView, Post, PostRating, PostView, Profile, ProfileView,
};
use crate::wire::{overwrite, overwritten, store_failure, to_unsigned, twos, zeros};
use vstd::prelude::*;
use vstd::utf8::encode_utf8;

verus! {

/// The command processor.
pub struct Processor {}

/// What a command that went through has done: the accounts after it, and
/// the steps by which the host provisions what the command created.
pub struct Transition {
    pub accounts: Seq<AccountView>,
    pub steps: Seq<StepView>,
}

/// The refusal of kind `kind` at position `slot`.
pub open spec fn rejected(kind: ErrorKind, slot: int) -> Result<Transition, ProcessError> {
    Err(failure_at(kind, slot))
}

/// The accounts with the buffer of the account at `slot` replaced.
pub open spec fn written(accounts: Seq<AccountView>, slot: int, data: Seq<u8>) -> Seq<
    AccountView,
> {
    accounts.update(slot, accounts[slot].holding(data))
}

/// What a processor function returns and leaves behind, held against the
/// outcome that the command has: the steps and the accounts of the
/// transition, or the refusal and the accounts as they were.
pub open spec fn applied(
    before: Seq<AccountView>,
    after: Seq<AccountView>,
    r: Result<Vec<ProvisionStep>, ProcessError>,
    outcome: Result<Transition, ProcessError>,
) -> bool {
    match outcome {
        Ok(transition) => {
            &&& r matches Ok(steps)
            &&& steps.deep_view() == transition.steps
            &&& after == transition.accounts
        },
        Err(e) => r == Err::<Vec<ProvisionStep>, ProcessError>(e) && after == before,
    }
}

/// The refusal for a command that needs `n` accounts and got fewer.
fn need(accounts: &Vec<Account>, n: usize) -> (r: Result<(), ProcessError>)
    ensures
        accounts@.len() < n ==> r == Err::<(), ProcessError>(
            failure_at(ErrorKind::NotEnoughAccountKeys, accounts@.len() as int),
        ),
        accounts@.len() >= n ==> r is Ok,
{
    if accounts.len() < n {
        Err(ProcessError::at(ErrorKind::NotEnoughAccountKeys, accounts.len()))
    } else {
        Ok(())
    }
}

/// Writes `bytes` over the front of the buffer of the account at `slot`.
fn write(accounts: &mut Vec<Account>, slot: usize, bytes: &Vec<u8>)
    requires
        slot < old(accounts)@.len(),
        bytes@.len() <= old(accounts)@[slot as int].data@.len(),
    ensures
        final(accounts)@.len() == old(accounts)@.len(),
        final(accounts).deep_view() == written(
            old(accounts).deep_view(),
            slot as int,
            overwritten(old(accounts)@[slot as int].data@, bytes@),
        ),
{
    overwrite(accounts[slot].data.as_mut_slice(), bytes.as_slice());
    assert(accounts.deep_view() =~= written(
        old(accounts).deep_view(),
        slot as int,
        overwritten(old(accounts)@[slot as int].data@, bytes@),
    ));
}

/// Makes the account at `slot` what the host makes of it by provisioning:
/// owned by the program, with `space` bytes of zeros.
fn provision(accounts: &mut Vec<Account>, slot: usize, program_id: &Pubkey, space: usize)
    requires
        slot < old(accounts)@.len(),
        old(accounts)@[slot as int].owner@ != program_id@,
    ensures
        final(accounts)@.len() == old(accounts)@.len(),
        final(accounts).deep_view() == old(accounts).deep_view().update(
            slot as int,
            old(accounts)@[slot as int]@.provisioned(program_id@, space as nat),
        ),
{
    accounts[slot].owner = *program_id;
    accounts[slot].data = vec![0u8; space];
    assert(accounts@[slot as int].data@ =~= zeros(space as nat));
    assert(accounts.deep_view() =~= old(accounts).deep_view().update(
        slot as int,
        old(accounts)@[slot as int]@.provisioned(program_id@, space as nat),
    ));
}

/// The refusal for a command whose caller did not sign.
fn signed(accounts: &Vec<Account>) -> (r: Result<(), ProcessError>)
    requires
        accounts@.len() >= 1,
    ensures
        !accounts@[0].is_signer ==> r == Err::<(), ProcessError>(
            failure_at(ErrorKind::MissingRequiredSignature, 0),
        ),
        accounts@[0].is_signer ==> r is Ok,
{
    if !accounts[0].is_signer {
        Err(ProcessError::at(ErrorKind::MissingRequiredSignature, 0))
    } else {
        Ok(())
    }
}

/// The refusal for an account that the program does not own.
fn owned(accounts: &Vec<Account>, slot: usize, program_id: &Pubkey) -> (r: Result<
    (),
    ProcessError,
>)
    requires
        slot < accounts@.len(),
    ensures
        accounts@[slot as int].owner@ != program_id@ ==> r == Err::<(), ProcessError>(
            failure_at(ErrorKind::NotFound, slot as int),
        ),
        accounts@[slot as int].owner@ == program_id@ ==> r is Ok,
{
    if !(accounts[slot].owner == *program_id) {
        Err(ProcessError::at(ErrorKind::NotFound, slot))
    } else {
        Ok(())
    }
}

/// The refusal for two accounts that a command writes and that lie at one
/// address: an account holds one record, so the later of the two is not
/// the account that the command needs.
fn apart(accounts: &Vec<Account>, first: usize, second: usize) -> (r: Result<(), ProcessError>)
    requires
        first < accounts@.len(),
        second < accounts@.len(),
    ensures
        accounts@[first as int].key@ == accounts@[second as int].key@ ==> r == Err::<
            (),
            ProcessError,
        >(failure_at(ErrorKind::InvalidArgument, second as int)),
        accounts@[first as int].key@ != accounts@[second as int].key@ ==> r is Ok,
{
    if accounts[first].key == accounts[second].key {
        Err(ProcessError::at(ErrorKind::InvalidArgument, second))
    } else {
        Ok(())
    }
}

/// The refusal for a record that cannot be stored in `capacity` bytes.
fn fits(capacity: usize, bytes: &Option<Vec<u8>>, slot: usize) -> (r: Result<
    Vec<u8>,
    ProcessError,
>)
    ensures
        match store_failure(capacity as nat, bytes.deep_view()) {
            Some(kind) => r == Err::<Vec<u8>, ProcessError>(failure_at(kind, slot as int)),
            None => r matches Ok(b) && bytes.deep_view() == Some(b@),
        },
{
    match bytes {
        None => Err(ProcessError::at(ErrorKind::Unencodable, slot)),
        Some(b) => {
            assert(b.deep_view() =~= b@);
            if b.len() > capacity {
                Err(ProcessError::at(ErrorKind::CapacityExceeded, slot))
            } else {
                let mut copy: Vec<u8> = Vec::new();
                copy.extend_from_slice(b.as_slice());
                assert(copy@ =~= b@);
                Ok(copy)
            }
        },
    }
}

/// The profile in the account at `slot`.
fn load_profile(accounts: &Vec<Account>, slot: usize) -> (r: Result<Profile, ProcessError>)
    requires
        slot < accounts@.len(),
    ensures
        match ProfileView::decode(accounts@[slot as int].data@) {
            Some(profile) => r matches Ok(p) && p@ == profile && p@.encodable()
                && p@.well_formed(),
            None => r == Err::<Profile, ProcessError>(
                failure_at(ErrorKind::MalformedRecord, slot as int),
            ),
        },
{
    match unpack_profile_from_slice(accounts[slot].data.as_slice()) {
        Ok(profile) => Ok(profile),
        Err(kind) => Err(ProcessError::at(kind, slot)),
    }
}

/// The post in the account at `slot`.
fn load_post(accounts: &Vec<Account>, slot: usize) -> (r: Result<Post, ProcessError>)
    requires
        slot < accounts@.len(),
    ensures
        match PostView::decode(accounts@[slot as int].data@) {
            Some(post) => r matches Ok(p) && p@ == post && p@.encodable() && p@.well_formed(),
            None => r == Err::<Post, ProcessError>(
                failure_at(ErrorKind::MalformedRecord, slot as int),
            ),
        },
{
    match unpack_post_from_slice(accounts[slot].data.as_slice()) {
        Ok(post) => Ok(post),
        Err(kind) => Err(ProcessError::at(kind, slot)),
    }
}

/// The community in the account at `slot`.
fn load_community(accounts: &Vec<Account>, slot: usize) -> (r: Result<Community, ProcessError>)
    requires
        slot < accounts@.len(),
    ensures
        match CommunityView::decode(accounts@[slot as int].data@) {
            Some(community) => r matches Ok(c) && c@ == community && c@.encodable()
                && c@.well_formed(),
            None => r == Err::<Community, ProcessError>(
                failure_at(ErrorKind::MalformedRecord, slot as int),
            ),
        },
{
    match unpack_community_from_slice(accounts[slot].data.as_slice()) {
        Ok(community) => Ok(community),
        Err(kind) => Err(ProcessError::at(kind, slot)),
    }
}

/// The capacity that the account at `slot` has once it is provisioned
/// with `space` bytes, where the program does not own it yet.
fn capacity(accounts: &Vec<Account>, slot: usize, program_id: &Pubkey, space: usize) -> (r: usize)
    requires
        slot < accounts@.len(),
    ensures
        r == accounts@[slot as int]@.provisioned(program_id@, space as nat).data.len(),
{
    if accounts[slot].owner == *program_id {
        accounts[slot].data.len()
    } else {
        space
    }
}

/// Provisions the account at `slot` with one step, where the program does
/// not own it yet, and writes `bytes` over its front.
fn create(
    accounts: &mut Vec<Account>,
    slot: usize,
    program_id: &Pubkey,
    space: usize,
    bytes: &Vec<u8>,
) -> (steps: Vec<ProvisionStep>)
    requires
        1 <= slot < old(accounts)@.len(),
        bytes@.len() <= old(accounts)@[slot as int]@.provisioned(
            program_id@,
            space as nat,
        ).data.len(),
    ensures
        final(accounts)@.len() == old(accounts)@.len(),
        final(accounts).deep_view() == Processor::created(
            old(accounts).deep_view(),
            slot as int,
            program_id@,
            space,
            bytes@,
        ),
        steps.deep_view() == Processor::creation(
            old(accounts).deep_view(),
            slot as int,
            program_id@,
            space,
        ),
{
    let ghost before = accounts.deep_view();
    assert(before[0] == accounts@[0]@ && before[slot as int] == accounts@[slot as int]@);
    let mut steps: Vec<ProvisionStep> = Vec::new();
    if !(accounts[slot].owner == *program_id) {
        steps.push(
            ProvisionStep::Create {
                from: accounts[0].key,
                to: accounts[slot].key,
                space,
                owner: *program_id,
            },
        );
        provision(accounts, slot, program_id, space);
    }
    assert(steps.deep_view() =~= Processor::creation(before, slot as int, program_id@, space));
    let ghost middle = accounts.deep_view();
    assert(middle[slot as int] == accounts@[slot as int]@);
    write(accounts, slot, bytes);
    assert(accounts.deep_view() =~= Processor::created(
        before,
        slot as int,
        program_id@,
        space,
        bytes@,
    ));
    steps
}

impl Processor {
    /// The accounts after the account at `slot` was provisioned with
    /// `space` bytes, where the program did not own it, and `bytes` were
    /// written over its front.
    pub open spec fn created(
        accounts: Seq<AccountView>,
        slot: int,
        program_id: Seq<u8>,
        space: usize,
        bytes: Seq<u8>,
    ) -> Seq<AccountView> {
        let fresh = accounts[slot].provisioned(program_id, space as nat);
        accounts.update(slot, fresh.holding(overwritten(fresh.data, bytes)))
    }

    /// The step by which the host creates the account at `slot`, paid for
    /// by the caller; no step where the program owns the account already.
    pub open spec fn creation(
        accounts: Seq<AccountView>,
        slot: int,
        program_id: Seq<u8>,
        space: usize,
    ) -> Seq<StepView> {
        if accounts[slot].owner == program_id {
            Seq::empty()
        } else {
            seq![
                StepView::Create {
                    from: accounts[0].key,
                    to: accounts[slot].key,
                    space,
                    owner: program_id,
                },
            ]
        }
    }

    /// The tag among the seeds of a profile's address: the bytes of
    /// `profile`.
    pub open spec fn profile_tag() -> Seq<u8> {
        seq![0x70u8, 0x72u8, 0x6fu8, 0x66u8, 0x69u8, 0x6cu8, 0x65u8]
    }

    /// The seeds of the address of a profile: the caller's key, the tag
    /// and the username as it was handed in.
    pub open spec fn profile_seeds(user: Seq<u8>, username: Seq<char>) -> Seq<Seq<u8>> {
        seq![user, Processor::profile_tag(), encode_utf8(username)]
    }

    /// The seeds by which the account of a profile signs: the seeds of its
    /// address and the bump seed that was found with it.
    pub open spec fn signer_seeds(user: Seq<u8>, username: Seq<char>, bump: u8) -> Seq<Seq<u8>> {
        Processor::profile_seeds(user, username).push(seq![bump])
    }

    /// The steps that provision the account of a profile: funding,
    /// allocation and assignment, each a step of its own.
    pub open spec fn profile_steps(
        user: Seq<u8>,
        profile: Seq<u8>,
        program_id: Seq<u8>,
        seeds: Seq<Seq<u8>>,
    ) -> Seq<StepView> {
        seq![
            StepView::Fund { from: user, to: profile, space: PROFILE_SPACE },
            StepView::Allocate { account: profile, space: PROFILE_SPACE, seeds },
            StepView::Assign { account: profile, owner: program_id, seeds },
        ]
    }

    /// The profile that `CreateProfile` writes: initialized, owned by the
    /// caller, its texts capped at 128 bytes, created at the clock's
    /// reading, with a credit rating of 100 and every counter at zero.
    pub open spec fn new_profile(
        owner: Seq<u8>,
        username: Seq<char>,
        bio: Seq<char>,
        profile_image: Seq<char>,
        cover_image: Seq<char>,
        unix_timestamp: i64,
    ) -> ProfileView {
        ProfileView {
            is_initialized: true,
            owner,
            username: capped(username, MAX_TEXT_BYTES as int),
            bio: capped(bio, MAX_TEXT_BYTES as int),
            profile_image: capped(profile_image, MAX_TEXT_BYTES as int),
            cover_image: capped(cover_image, MAX_TEXT_BYTES as int),
            created_at: twos(unix_timestamp),
            followers_count: 0,
            following_count: 0,
            user_credit_rating: INITIAL_CREDIT_RATING,
            posts_count: 0,
            last_post_timestamp: 0,
            daily_post_count: 0,
            is_verified: false,
        }
    }

    /// What `CreateProfile` comes to, where `derived` is the address that
    /// the seeds of the profile derive, with its bump seed. The account of
    /// the profile must lie at that address. Where the program does not
    /// own it yet it is provisioned in three steps; then the new profile
    /// is written, over whatever the account held.
    pub open spec fn create_profile(
        program_id: Seq<u8>,
        accounts: Seq<AccountView>,
        derived: Option<(Seq<u8>, u8)>,
        username: Seq<char>,
        bio: Seq<char>,
        profile_image: Seq<char>,
        cover_image: Seq<char>,
        unix_timestamp: i64,
    ) -> Result<Transition, ProcessError> {
        if accounts.len() < 3 {
            rejected(ErrorKind::NotEnoughAccountKeys, accounts.len() as int)
        } else if !accounts[0].is_signer {
            rejected(ErrorKind::MissingRequiredSignature, 0)
        } else if accounts[2].key != system_program_key() {
            rejected(ErrorKind::InvalidAccountData, 2)
        } else if derived is None || derived.unwrap().0 != accounts[1].key {
            rejected(ErrorKind::InvalidArgument, 1)
        } else {
            let fresh = accounts[1].provisioned(program_id, PROFILE_SPACE as nat);
            let profile = Processor::new_profile(
                accounts[0].key,
                username,
                bio,
                profile_image,
                cover_image,
                unix_timestamp,
            );
            match store_failure(fresh.data.len(), profile.encoding()) {
                Some(kind) => rejected(kind, 1),
                None => Ok(
                    Transition {
                        accounts: Processor::created(
                            accounts,
                            1,
                            program_id,
                            PROFILE_SPACE,
                            profile.bytes(),
                        ),
                        steps: if accounts[1].owner == program_id {
                            Seq::empty()
                        } else {
                            Processor::profile_steps(
                                accounts[0].key,
                                accounts[1].key,
                                program_id,
                                Processor::signer_seeds(
                                    accounts[0].key,
                                    username,
                                    derived.unwrap().1,
                                ),
                            )
                        },
                    },
                ),
            }
        }
    }

    /// The seeds of the address of a profile.
    pub fn seeds_of_profile(user: &Pubkey, username: &String) -> (r: Vec<Vec<u8>>)
        ensures
            r.deep_view() == Processor::profile_seeds(user@, username@),
    {
        let mut tag: Vec<u8> = Vec::new();
        tag.push(0x70u8);
        tag.push(0x72u8);
        tag.push(0x6fu8);
        tag.push(0x66u8);
        tag.push(0x69u8);
        tag.push(0x6cu8);
        tag.push(0x65u8);
        assert(tag@ =~= Processor::profile_tag());
        let mut name: Vec<u8> = Vec::new();
        name.extend_from_slice(username.as_str().as_bytes());
        assert(name@ =~= encode_utf8(username@));
        let mut seeds: Vec<Vec<u8>> = Vec::new();
        seeds.push(user.to_vec());
        seeds.push(tag);
        seeds.push(name);
        assert(seeds.deep_view() =~~= Processor::profile_seeds(user@, username@));
        seeds
    }

    /// The seeds by which the account of a profile signs.
    pub fn seeds_of_signer(user: &Pubkey, username: &String, bump: u8) -> (r: Vec<Vec<u8>>)
        ensures
            r.deep_view() == Processor::signer_seeds(user@, username@, bump),
    {
        let mut seeds = Processor::seeds_of_profile(user, username);
        let ghost before = seeds.deep_view();
        let mut last: Vec<u8> = Vec::new();
        last.push(bump);
        assert(last@ =~= seq![bump]);
        seeds.push(last);
        assert(seeds.deep_view() =~~= before.push(seq![bump]));
        seeds
    }

    /// The address of the profile of `user` under `username`, with its bump
    /// seed: the program address that the seeds of the profile derive for
    /// this program, or nothing where they derive none.
    pub fn profile_address(program_id: &Pubkey, user: &Pubkey, username: &String) -> (r: Option<
        (Pubkey, u8),
    >)
        ensures
            r.deep_view() == program_address(
                Processor::profile_seeds(user@, username@),
                program_id@,
            ),
    {
        let seeds = Processor::seeds_of_profile(user, username);
        find_program_address(&seeds, program_id)
    }

    /// Creates the profile of the caller in the account at the address
    /// that is `derived` from the caller and the username.
    ///
    /// Accounts: the caller, who signs; the account of the profile; the
    /// system program.
    pub fn create_profile_at(
        program_id: &Pubkey,
        accounts: &mut Vec<Account>,
        derived: Option<(Pubkey, u8)>,
        username: String,
        bio: String,
        profile_image: String,
        cover_image: String,
        unix_timestamp: i64,
    ) -> (r: Result<Vec<ProvisionStep>, ProcessError>)
        ensures
            applied(
                old(accounts).deep_view(),
                final(accounts).deep_view(),
                r,
                Processor::create_profile(
                    program_id@,
                    old(accounts).deep_view(),
                    derived.deep_view(),
                    username@,
                    bio@,
                    profile_image@,
                    cover_image@,
                    unix_timestamp,
                ),
            ),
    {
        need(accounts, 3)?;
        let ghost before = accounts.deep_view();
        assert(before[0] == accounts@[0]@ && before[1] == accounts@[1]@ && before[2]
            == accounts@[2]@);
        signed(accounts)?;
        if !(accounts[2].key == system_program_id()) {
            return Err(ProcessError::at(ErrorKind::InvalidAccountData, 2));
        }
        let bump = match derived {
            Some((address, bump)) => {
                if !(address == accounts[1].key) {
                    return Err(ProcessError::at(ErrorKind::InvalidArgument, 1));
                }
                bump
            },
            None => { return Err(ProcessError::at(ErrorKind::InvalidArgument, 1)); },
        };
        let provisioning = !(accounts[1].owner == *program_id);
        let room = capacity(accounts, 1, program_id, PROFILE_SPACE);
        let mut steps: Vec<ProvisionStep> = Vec::new();
        if provisioning {
            steps.push(
                ProvisionStep::Fund {
                    from: accounts[0].key,
                    to: accounts[1].key,
                    space: PROFILE_SPACE,
                },
            );
            steps.push(
                ProvisionStep::Allocate {
                    account: accounts[1].key,
                    space: PROFILE_SPACE,
                    seeds: Processor::seeds_of_signer(&accounts[0].key, &username, bump),
                },
            );
            steps.push(
                ProvisionStep::Assign {
                    account: accounts[1].key,
                    owner: *program_id,
                    seeds: Processor::seeds_of_signer(&accounts[0].key, &username, bump),
                },
            );
            assert(steps.deep_view() =~= Processor::profile_steps(
                before[0].key,
                before[1].key,
                program_id@,
                Processor::signer_seeds(before[0].key, username@, bump),
            ));
        } else {
            assert(steps.deep_view() =~= Seq::<StepView>::empty());
        }
        let profile = Profile {
            is_initialized: true,
            owner: accounts[0].key,
            username: truncate(username, MAX_TEXT_BYTES),
            bio: truncate(bio, MAX_TEXT_BYTES),
            profile_image: truncate(profile_image, MAX_TEXT_BYTES),
            cover_image: truncate(cover_image, MAX_TEXT_BYTES),
            created_at: to_unsigned(unix_timestamp),
            followers_count: 0,
            following_count: 0,
            user_credit_rating: INITIAL_CREDIT_RATING,
            posts_count: 0,
            last_post_timestamp: 0,
            daily_post_count: 0,
            is_verified: false,
        };
        let bytes = fits(room, &profile.encode(), 1)?;
        if provisioning {
            provision(accounts, 1, program_id, PROFILE_SPACE);
        }
        let ghost middle = accounts.deep_view();
        assert(middle[1] == accounts@[1]@);
        write(accounts, 1, &bytes);
        assert(accounts.deep_view() =~= before.update(
            1,
            before[1].provisioned(program_id@, PROFILE_SPACE as nat).holding(
                overwritten(
                    before[1].provisioned(program_id@, PROFILE_SPACE as nat).data,
                    bytes@,
                ),
            ),
        ));
        Ok(steps)
    }

    /// Creates the profile of the caller. The account of the profile must
    /// lie at the address that the caller's key, the tag `profile` and the
    /// username derive for this program.
    ///
    /// Accounts: the caller, who signs; the account of the profile; the
    /// system program.
    pub fn process_create_profile(
        program_id: &Pubkey,
        accounts: &mut Vec<Account>,
        username: String,
        bio: String,
        profile_image: String,
        cover_image: String,
        unix_timestamp: i64,
    ) -> (r: Result<Vec<ProvisionStep>, ProcessError>)
        ensures
            applied(
                old(accounts).deep_view(),
                final(accounts).deep_view(),
                r,
                Processor::create_profile(
                    program_id@,
                    old(accounts).deep_view(),
                    program_address(
                        Processor::profile_seeds(old(accounts).deep_view()[0].key, username@),
                        program_id@,
                    ),
                    username@,
                    bio@,
                    profile_image@,
                    cover_image@,
                    unix_timestamp,
                ),
            ),
    {
        let derived = if accounts.len() >= 3 {
            let ghost before = accounts.deep_view();
            assert(before[0] == accounts@[0]@);
            Processor::profile_address(program_id, &accounts[0].key, &username)
        } else {
            None
        };
        Processor::create_profile_at(
            program_id,
            accounts,
            derived,
            username,
            bio,
            profile_image,
            cover_image,
            unix_timestamp,
        )
    }

    /// What `UpdateProfile` comes to: the bio and the images of the
    /// caller's profile are replaced, and nothing else is.
    pub open spec fn update_profile(
        program_id: Seq<u8>,
        accounts: Seq<AccountView>,
        bio: Seq<char>,
        profile_image: Seq<char>,
        cover_image: Seq<char>,
    ) -> Result<Transition, ProcessError> {
        if accounts.len() < 2 {
            rejected(ErrorKind::NotEnoughAccountKeys, accounts.len() as int)
        } else if !accounts[0].is_signer {
            rejected(ErrorKind::MissingRequiredSignature, 0)
        } else if accounts[1].owner != program_id {
            rejected(ErrorKind::NotFound, 1)
        } else {
            match ProfileView::decode(accounts[1].data) {
                None => rejected(ErrorKind::MalformedRecord, 1),
                Some(profile) => if profile.owner != accounts[0].key {
                    rejected(ErrorKind::PermissionDenied, 1)
                } else {
                    let updated = ProfileView { bio, profile_image, cover_image, ..profile };
                    match store_failure(accounts[1].data.len(), updated.encoding()) {
                        Some(kind) => rejected(kind, 1),
                        None => Ok(
                            Transition {
                                accounts: written(
                                    accounts,
                                    1,
                                    overwritten(accounts[1].data, updated.bytes()),
                                ),
                                steps: Seq::empty(),
                            },
                        ),
                    }
                },
            }
        }
    }

    /// Replaces the bio and the images of the caller's profile.
    ///
    /// Accounts: the caller, who signs; the account of the profile.
    pub fn process_update_profile(
        program_id: &Pubkey,
        accounts: &mut Vec<Account>,
        bio: String,
        profile_image: String,
        cover_image: String,
    ) -> (r: Result<Vec<ProvisionStep>, ProcessError>)
        ensures
            applied(
                old(accounts).deep_view(),
                final(accounts).deep_view(),
                r,
                Processor::update_profile(
                    program_id@,
                    old(accounts).deep_view(),
                    bio@,
                    profile_image@,
                    cover_image@,
                ),
            ),
    {
        need(accounts, 2)?;
        let ghost before = accounts.deep_view();
        assert(before[0] == accounts@[0]@ && before[1] == accounts@[1]@);
        if !accounts[0].is_signer {
            return Err(ProcessError::at(ErrorKind::MissingRequiredSignature, 0));
        }
        if !(accounts[1].owner == *program_id) {
            return Err(ProcessError::at(ErrorKind::NotFound, 1));
        }
        let mut profile = match unpack_profile_from_slice(accounts[1].data.as_slice()) {
            Ok(profile) => profile,
            Err(kind) => { return Err(ProcessError::at(kind, 1)); },
        };
        if !(profile.owner == accounts[0].key) {
            return Err(ProcessError::at(ErrorKind::PermissionDenied, 1));
        }
        profile.bio = bio;
        profile.profile_image = profile_image;
        profile.cover_image = cover_image;
        let bytes = fits(accounts[1].data.len(), &profile.encode(), 1)?;
        write(accounts, 1, &bytes);
        let steps: Vec<ProvisionStep> = Vec::new();
        assert(steps.deep_view() =~= Seq::<StepView>::empty());
        Ok(steps)
    }

    /// What `CreatePost` comes to. The caller's profile counts one post
    /// more, in all and for the day, and remembers the clock's reading;
    /// the daily count starts again where more than a day has passed
    /// since the last post. The post gets the new count of posts as its
    /// id. The account of the post is created where the program does not
    /// own it yet.
    pub open spec fn create_post(
        program_id: Seq<u8>,
        accounts: Seq<AccountView>,
        content: Seq<char>,
        images: Seq<Seq<char>>,
        unix_timestamp: i64,
    ) -> Result<Transition, ProcessError> {
        if accounts.len() < 4 {
            rejected(ErrorKind::NotEnoughAccountKeys, accounts.len() as int)
        } else if !accounts[0].is_signer {
            rejected(ErrorKind::MissingRequiredSignature, 0)
        } else if accounts[2].owner != program_id {
            rejected(ErrorKind::NotFound, 2)
        } else if accounts[1].key == accounts[2].key {
            rejected(ErrorKind::InvalidArgument, 2)
        } else {
            match ProfileView::decode(accounts[2].data) {
                None => rejected(ErrorKind::MalformedRecord, 2),
                Some(profile) => {
                    let now = twos(unix_timestamp);
                    if profile.owner != accounts[0].key {
                        rejected(ErrorKind::PermissionDenied, 2)
                    } else if profile.posts_count == u64::MAX || Processor::posts_today(
                        profile,
                        now,
                    ) == u64::MAX {
                        rejected(ErrorKind::ArithmeticOverflow, 2)
                    } else {
                        let posted = Processor::posted(profile, now);
                        let post = Processor::new_post(
                            posted.posts_count,
                            accounts[0].key,
                            content,
                            now,
                            images,
                        );
                        let fresh = accounts[1].provisioned(program_id, POST_SPACE as nat);
                        match (
                            store_failure(fresh.data.len(), post.encoding()),
                            store_failure(accounts[2].data.len(), posted.encoding()),
                        ) {
                            (Some(kind), _) => rejected(kind, 1),
                            (None, Some(kind)) => rejected(kind, 2),
                            (None, None) => Ok(
                                Transition {
                                    accounts: written(
                                        Processor::created(
                                            accounts,
                                            1,
                                            program_id,
                                            POST_SPACE,
                                            post.bytes(),
                                        ),
                                        2,
                                        overwritten(accounts[2].data, posted.bytes()),
                                    ),
                                    steps: Processor::creation(
                                        accounts,
                                        1,
                                        program_id,
                                        POST_SPACE,
                                    ),
                                },
                            ),
                        }
                    }
                },
            }
        }
    }

    /// The posts of the day so far: none where more than a day has passed
    /// since the last post, and the daily count else.
    pub open spec fn posts_today(profile: ProfileView, now: u64) -> u64 {
        if day_passed(profile.last_post_timestamp, now) {
            0
        } else {
            profile.daily_post_count
        }
    }

    /// The profile after a post at `now`: one post more, in all and for
    /// the day, and `now` as the time of the last post.
    pub open spec fn posted(profile: ProfileView, now: u64) -> ProfileView {
        ProfileView {
            posts_count: (profile.posts_count + 1) as u64,
            daily_post_count: (Processor::posts_today(profile, now) + 1) as u64,
            last_post_timestamp: now,
            ..profile
        }
    }

    /// The profile after a comment: one post more in all.
    pub open spec fn replied(profile: ProfileView) -> ProfileView {
        ProfileView { posts_count: (profile.posts_count + 1) as u64, ..profile }
    }

    /// The post after a comment on it: one comment more.
    pub open spec fn commented(post: PostView) -> PostView {
        PostView { comments: (post.comments + 1) as u64, ..post }
    }

    /// The post after a like: one like more, the rating that its likes
    /// earn, and outside the kill zone.
    pub open spec fn liked(post: PostView) -> PostView {
        PostView {
            likes: (post.likes + 1) as u64,
            rating: PostRating::tier((post.likes + 1) as u64),
            in_kill_zone: false,
            ..post
        }
    }

    /// The profile after a like of one of its posts: a credit rating one
    /// higher.
    pub open spec fn credited(author: ProfileView) -> ProfileView {
        ProfileView { user_credit_rating: (author.user_credit_rating + 1) as i64, ..author }
    }

    /// The profile with one follower more.
    pub open spec fn gained(followed: ProfileView) -> ProfileView {
        ProfileView { followers_count: (followed.followers_count + 1) as u64, ..followed }
    }

    /// The profile that follows one more.
    pub open spec fn joined_in(follower: ProfileView) -> ProfileView {
        ProfileView { following_count: (follower.following_count + 1) as u64, ..follower }
    }

    /// The profile with one follower fewer, and none where it has none.
    pub open spec fn lost(followed: ProfileView) -> ProfileView {
        ProfileView {
            followers_count: Processor::one_less(followed.followers_count),
            ..followed
        }
    }

    /// The profile that follows one fewer, and none where it follows none.
    pub open spec fn dropped(follower: ProfileView) -> ProfileView {
        ProfileView {
            following_count: Processor::one_less(follower.following_count),
            ..follower
        }
    }

    /// The community with one member more.
    pub open spec fn joined(community: CommunityView) -> CommunityView {
        CommunityView { member_count: (community.member_count + 1) as u64, ..community }
    }

    /// The post that `CreatePost` and `CommentOnPost` write: initialized,
    /// with no likes, comments or mirrors, unrated and outside the kill
    /// zone.
    pub open spec fn new_post(
        id: u64,
        author: Seq<u8>,
        content: Seq<char>,
        timestamp: u64,
        images: Seq<Seq<char>>,
    ) -> PostView {
        PostView {
            is_initialized: true,
            id,
            author,
            content,
            timestamp,
            likes: 0,
            comments: 0,
            mirrors: 0,
            images,
            rating: PostRating::Unrated,
            in_kill_zone: false,
        }
    }

    /// Creates a post of the caller.
    ///
    /// Accounts: the caller, who signs; the account of the post; the
    /// account of the caller's profile; the system program.
    pub fn process_create_post(
        program_id: &Pubkey,
        accounts: &mut Vec<Account>,
        content: String,
        images: Vec<String>,
        unix_timestamp: i64,
    ) -> (r: Result<Vec<ProvisionStep>, ProcessError>)
        ensures
            applied(
                old(accounts).deep_view(),
                final(accounts).deep_view(),
                r,
                Processor::create_post(
                    program_id@,
                    old(accounts).deep_view(),
                    content@,
                    images.deep_view(),
                    unix_timestamp,
                ),
            ),
    {
        need(accounts, 4)?;
        let ghost before = accounts.deep_view();
        assert(before[0] == accounts@[0]@ && before[1] == accounts@[1]@ && before[2]
            == accounts@[2]@);
        signed(accounts)?;
        owned(accounts, 2, program_id)?;
        apart(accounts, 1, 2)?;
        let mut profile = load_profile(accounts, 2)?;
        if !(profile.owner == accounts[0].key) {
            return Err(ProcessError::at(ErrorKind::PermissionDenied, 2));
        }
        let now = to_unsigned(unix_timestamp);
        if is_new_day(profile.last_post_timestamp, now) {
            profile.daily_post_count = 0;
        }
        if profile.posts_count == u64::MAX || profile.daily_post_count == u64::MAX {
            return Err(ProcessError::at(ErrorKind::ArithmeticOverflow, 2));
        }
        profile.posts_count = profile.posts_count + 1;
        profile.daily_post_count = profile.daily_post_count + 1;
        profile.last_post_timestamp = now;
        let post = Post {
            is_initialized: true,
            id: profile.posts_count,
            author: accounts[0].key,
            content,
            timestamp: now,
            likes: 0,
            comments: 0,
            mirrors: 0,
            images,
            rating: PostRating::Unrated,
            in_kill_zone: false,
        };
        let room = capacity(accounts, 1, program_id, POST_SPACE);
        let post_bytes = fits(room, &post.encode(), 1)?;
        let profile_bytes = fits(accounts[2].data.len(), &profile.encode(), 2)?;
        let steps = create(accounts, 1, program_id, POST_SPACE, &post_bytes);
        let ghost middle = accounts.deep_view();
        assert(middle[2] == accounts@[2]@);
        write(accounts, 2, &profile_bytes);
        Ok(steps)
    }

    /// What `LikePost` comes to: the post has one like more, the rating
    /// that its likes earn, and is outside the kill zone; the credit
    /// rating of its author is one higher.
    pub open spec fn like_post(
        program_id: Seq<u8>,
        accounts: Seq<AccountView>,
        post_id: u64,
    ) -> Result<Transition, ProcessError> {
        if accounts.len() < 3 {
            rejected(ErrorKind::NotEnoughAccountKeys, accounts.len() as int)
        } else if !accounts[0].is_signer {
            rejected(ErrorKind::MissingRequiredSignature, 0)
        } else if accounts[1].owner != program_id {
            rejected(ErrorKind::NotFound, 1)
        } else if accounts[2].owner != program_id {
            rejected(ErrorKind::NotFound, 2)
        } else if accounts[1].key == accounts[2].key {
            rejected(ErrorKind::InvalidArgument, 2)
        } else {
            match (PostView::decode(accounts[1].data), ProfileView::decode(accounts[2].data)) {
                (None, _) => rejected(ErrorKind::MalformedRecord, 1),
                (Some(post), None) => if post.id != post_id {
                    rejected(ErrorKind::InvalidArgument, 1)
                } else {
                    rejected(ErrorKind::MalformedRecord, 2)
                },
                (Some(post), Some(author)) => if post.id != post_id {
                    rejected(ErrorKind::InvalidArgument, 1)
                } else if author.owner != post.author {
                    rejected(ErrorKind::InvalidArgument, 2)
                } else if post.likes == u64::MAX {
                    rejected(ErrorKind::ArithmeticOverflow, 1)
                } else if author.user_credit_rating == i64::MAX {
                    rejected(ErrorKind::ArithmeticOverflow, 2)
                } else {
                    let liked = Processor::liked(post);
                    let credited = Processor::credited(author);
                    match (
                        store_failure(accounts[1].data.len(), liked.encoding()),
                        store_failure(accounts[2].data.len(), credited.encoding()),
                    ) {
                        (Some(kind), _) => rejected(kind, 1),
                        (None, Some(kind)) => rejected(kind, 2),
                        (None, None) => Ok(
                            Transition {
                                accounts: written(
                                    written(
                                        accounts,
                                        1,
                                        overwritten(accounts[1].data, liked.bytes()),
                                    ),
                                    2,
                                    overwritten(accounts[2].data, credited.bytes()),
                                ),
                                steps: Seq::empty(),
                            },
                        ),
                    }
                },
            }
        }
    }

    /// Likes a post.
    ///
    /// Accounts: the caller, who signs; the account of the post; the
    /// account of the profile of the post's author.
    pub fn process_like_post(program_id: &Pubkey, accounts: &mut Vec<Account>, post_id: u64) -> (r:
        Result<Vec<ProvisionStep>, ProcessError>)
        ensures
            applied(
                old(accounts).deep_view(),
                final(accounts).deep_view(),
                r,
                Processor::like_post(program_id@, old(accounts).deep_view(), post_id),
            ),
    {
        need(accounts, 3)?;
        let ghost before = accounts.deep_view();
        assert(before[0] == accounts@[0]@ && before[1] == accounts@[1]@ && before[2]
            == accounts@[2]@);
        signed(accounts)?;
        owned(accounts, 1, program_id)?;
        owned(accounts, 2, program_id)?;
        apart(accounts, 1, 2)?;
        let mut post = load_post(accounts, 1)?;
        if post.id != post_id {
            return Err(ProcessError::at(ErrorKind::InvalidArgument, 1));
        }
        let mut author = load_profile(accounts, 2)?;
        if !(author.owner == post.author) {
            return Err(ProcessError::at(ErrorKind::InvalidArgument, 2));
        }
        if post.likes == u64::MAX {
            return Err(ProcessError::at(ErrorKind::ArithmeticOverflow, 1));
        }
        if author.user_credit_rating == i64::MAX {
            return Err(ProcessError::at(ErrorKind::ArithmeticOverflow, 2));
        }
        post.likes = post.likes + 1;
        post.rating = PostRating::from_likes(post.likes);
        post.in_kill_zone = false;
        author.user_credit_rating = author.user_credit_rating + 1;
        let post_bytes = fits(accounts[1].data.len(), &post.encode(), 1)?;
        let author_bytes = fits(accounts[2].data.len(), &author.encode(), 2)?;
        write(accounts, 1, &post_bytes);
        let ghost middle = accounts.deep_view();
        assert(middle[2] == accounts@[2]@);
        write(accounts, 2, &author_bytes);
        let steps: Vec<ProvisionStep> = Vec::new();
        assert(steps.deep_view() =~= Seq::<StepView>::empty());
        Ok(steps)
    }

    /// What `CommentOnPost` comes to. The comment is a post of its own:
    /// the caller's profile counts one post more and the comment gets
    /// that count as its id; the post commented on counts one comment
    /// more. The account of the comment is created where the program does
    /// not own it yet.
    pub open spec fn comment(
        program_id: Seq<u8>,
        accounts: Seq<AccountView>,
        content: Seq<char>,
        parent_id: u64,
        unix_timestamp: i64,
    ) -> Result<Transition, ProcessError> {
        if accounts.len() < 5 {
            rejected(ErrorKind::NotEnoughAccountKeys, accounts.len() as int)
        } else if !accounts[0].is_signer {
            rejected(ErrorKind::MissingRequiredSignature, 0)
        } else if accounts[2].owner != program_id {
            rejected(ErrorKind::NotFound, 2)
        } else if accounts[3].owner != program_id {
            rejected(ErrorKind::NotFound, 3)
        } else if accounts[1].key == accounts[2].key {
            rejected(ErrorKind::InvalidArgument, 2)
        } else if accounts[1].key == accounts[3].key || accounts[2].key == accounts[3].key {
            rejected(ErrorKind::InvalidArgument, 3)
        } else {
            match (PostView::decode(accounts[2].data), ProfileView::decode(accounts[3].data)) {
                (None, _) => rejected(ErrorKind::MalformedRecord, 2),
                (Some(parent), None) => if parent.id != parent_id {
                    rejected(ErrorKind::InvalidArgument, 2)
                } else {
                    rejected(ErrorKind::MalformedRecord, 3)
                },
                (Some(parent), Some(profile)) => if parent.id != parent_id {
                    rejected(ErrorKind::InvalidArgument, 2)
                } else if profile.owner != accounts[0].key {
                    rejected(ErrorKind::PermissionDenied, 3)
                } else if profile.posts_count == u64::MAX {
                    rejected(ErrorKind::ArithmeticOverflow, 3)
                } else if parent.comments == u64::MAX {
                    rejected(ErrorKind::ArithmeticOverflow, 2)
                } else {
                    let posted = Processor::replied(profile);
                    let commented = Processor::commented(parent);
                    let reply = Processor::new_post(
                        posted.posts_count,
                        accounts[0].key,
                        content,
                        twos(unix_timestamp),
                        Seq::empty(),
                    );
                    let fresh = accounts[1].provisioned(program_id, COMMENT_SPACE as nat);
                    match (
                        store_failure(fresh.data.len(), reply.encoding()),
                        store_failure(accounts[2].data.len(), commented.encoding()),
                        store_failure(accounts[3].data.len(), posted.encoding()),
                    ) {
                        (Some(kind), _, _) => rejected(kind, 1),
                        (None, Some(kind), _) => rejected(kind, 2),
                        (None, None, Some(kind)) => rejected(kind, 3),
                        (None, None, None) => Ok(
                            Transition {
                                accounts: written(
                                    written(
                                        Processor::created(
                                            accounts,
                                            1,
                                            program_id,
                                            COMMENT_SPACE,
                                            reply.bytes(),
                                        ),
                                        2,
                                        overwritten(accounts[2].data, commented.bytes()),
                                    ),
                                    3,
                                    overwritten(accounts[3].data, posted.bytes()),
                                ),
                                steps: Processor::creation(
                                    accounts,
                                    1,
                                    program_id,
                                    COMMENT_SPACE,
                                ),
                            },
                        ),
                    }
                },
            }
        }
    }

    /// Comments on a post.
    ///
    /// Accounts: the caller, who signs; the account of the comment; the
    /// account of the post commented on; the account of the caller's
    /// profile; the system program.
    pub fn process_comment(
        program_id: &Pubkey,
        accounts: &mut Vec<Account>,
        content: String,
        parent_id: u64,
        unix_timestamp: i64,
    ) -> (r: Result<Vec<ProvisionStep>, ProcessError>)
        ensures
            applied(
                old(accounts).deep_view(),
                final(accounts).deep_view(),
                r,
                Processor::comment(
                    program_id@,
                    old(accounts).deep_view(),
                    content@,
                    parent_id,
                    unix_timestamp,
                ),
            ),
    {
        need(accounts, 5)?;
        let ghost before = accounts.deep_view();
        assert(before[0] == accounts@[0]@ && before[1] == accounts@[1]@ && before[2]
            == accounts@[2]@ && before[3] == accounts@[3]@);
        signed(accounts)?;
        owned(accounts, 2, program_id)?;
        owned(accounts, 3, program_id)?;
        apart(accounts, 1, 2)?;
        apart(accounts, 1, 3)?;
        apart(accounts, 2, 3)?;
        let mut parent = load_post(accounts, 2)?;
        if parent.id != parent_id {
            return Err(ProcessError::at(ErrorKind::InvalidArgument, 2));
        }
        let mut profile = load_profile(accounts, 3)?;
        if !(profile.owner == accounts[0].key) {
            return Err(ProcessError::at(ErrorKind::PermissionDenied, 3));
        }
        if profile.posts_count == u64::MAX {
            return Err(ProcessError::at(ErrorKind::ArithmeticOverflow, 3));
        }
        if parent.comments == u64::MAX {
            return Err(ProcessError::at(ErrorKind::ArithmeticOverflow, 2));
        }
        profile.posts_count = profile.posts_count + 1;
        parent.comments = parent.comments + 1;
        let images: Vec<String> = Vec::new();
        assert(images.deep_view() =~= Seq::<Seq<char>>::empty());
        let reply = Post {
            is_initialized: true,
            id: profile.posts_count,
            author: accounts[0].key,
            content,
            timestamp: to_unsigned(unix_timestamp),
            likes: 0,
            comments: 0,
            mirrors: 0,
            images,
            rating: PostRating::Unrated,
            in_kill_zone: false,
        };
        let room = capacity(accounts, 1, program_id, COMMENT_SPACE);
        let reply_bytes = fits(room, &reply.encode(), 1)?;
        let parent_bytes = fits(accounts[2].data.len(), &parent.encode(), 2)?;
        let profile_bytes = fits(accounts[3].data.len(), &profile.encode(), 3)?;
        let steps = create(accounts, 1, program_id, COMMENT_SPACE, &reply_bytes);
        let ghost second = accounts.deep_view();
        assert(second[2] == accounts@[2]@);
        write(accounts, 2, &parent_bytes);
        let ghost third = accounts.deep_view();
        assert(third[3] == accounts@[3]@);
        write(accounts, 3, &profile_bytes);
        Ok(steps)
    }

    /// What `FollowProfile` and `UnfollowProfile` check before they count:
    /// the refusal, if there is one, or the two profiles, the followed
    /// one first. The two are profiles in two accounts: nobody follows
    /// their own profile.
    pub open spec fn follow_pair(
        program_id: Seq<u8>,
        accounts: Seq<AccountView>,
        profile_id: Seq<u8>,
    ) -> Result<(ProfileView, ProfileView), ProcessError> {
        if accounts.len() < 3 {
            Err(failure_at(ErrorKind::NotEnoughAccountKeys, accounts.len() as int))
        } else if !accounts[0].is_signer {
            Err(failure_at(ErrorKind::MissingRequiredSignature, 0))
        } else if accounts[1].owner != program_id {
            Err(failure_at(ErrorKind::NotFound, 1))
        } else if accounts[2].owner != program_id {
            Err(failure_at(ErrorKind::NotFound, 2))
        } else if accounts[1].key != profile_id {
            Err(failure_at(ErrorKind::InvalidArgument, 1))
        } else if accounts[1].key == accounts[2].key {
            Err(failure_at(ErrorKind::InvalidArgument, 2))
        } else {
            match (ProfileView::decode(accounts[1].data), ProfileView::decode(accounts[2].data)) {
                (None, _) => Err(failure_at(ErrorKind::MalformedRecord, 1)),
                (Some(followed), None) => Err(failure_at(ErrorKind::MalformedRecord, 2)),
                (Some(followed), Some(follower)) => if follower.owner != accounts[0].key {
                    Err(failure_at(ErrorKind::PermissionDenied, 2))
                } else {
                    Ok((followed, follower))
                },
            }
        }
    }

    /// The accounts after both profiles of a follow or an unfollow were
    /// written back, or the refusal where one of them does not fit.
    pub open spec fn follow_written(
        accounts: Seq<AccountView>,
        followed: ProfileView,
        follower: ProfileView,
    ) -> Result<Transition, ProcessError> {
        match (
            store_failure(accounts[1].data.len(), followed.encoding()),
            store_failure(accounts[2].data.len(), follower.encoding()),
        ) {
            (Some(kind), _) => rejected(kind, 1),
            (None, Some(kind)) => rejected(kind, 2),
            (None, None) => Ok(
                Transition {
                    accounts: written(
                        written(accounts, 1, overwritten(accounts[1].data, followed.bytes())),
                        2,
                        overwritten(accounts[2].data, follower.bytes()),
                    ),
                    steps: Seq::empty(),
                },
            ),
        }
    }

    /// What `FollowProfile` comes to: the followed profile has one
    /// follower more, and the caller's profile follows one more.
    pub open spec fn follow(
        program_id: Seq<u8>,
        accounts: Seq<AccountView>,
        profile_id: Seq<u8>,
    ) -> Result<Transition, ProcessError> {
        match Processor::follow_pair(program_id, accounts, profile_id) {
            Err(e) => Err(e),
            Ok((followed, follower)) => if followed.followers_count == u64::MAX {
                rejected(ErrorKind::ArithmeticOverflow, 1)
            } else if follower.following_count == u64::MAX {
                rejected(ErrorKind::ArithmeticOverflow, 2)
            } else {
                Processor::follow_written(
                    accounts,
                    Processor::gained(followed),
                    Processor::joined_in(follower),
                )
            },
        }
    }

    /// A counter one lower, and zero where it is zero.
    pub open spec fn one_less(count: u64) -> u64 {
        if count > 0 {
            (count - 1) as u64
        } else {
            0
        }
    }

    /// What `UnfollowProfile` comes to: the followed profile has one
    /// follower fewer, and the caller's profile follows one fewer; a
    /// counter at zero stays at zero.
    pub open spec fn unfollow(
        program_id: Seq<u8>,
        accounts: Seq<AccountView>,
        profile_id: Seq<u8>,
    ) -> Result<Transition, ProcessError> {
        match Processor::follow_pair(program_id, accounts, profile_id) {
            Err(e) => Err(e),
            Ok((followed, follower)) => Processor::follow_written(
                accounts,
                Processor::lost(followed),
                Processor::dropped(follower),
            ),
        }
    }

    /// Checks a follow or an unfollow and reads the two profiles.
    fn load_follow_pair(program_id: &Pubkey, accounts: &Vec<Account>, profile_id: &Pubkey) -> (r:
        Result<(Profile, Profile), ProcessError>)
        ensures
            match Processor::follow_pair(program_id@, accounts.deep_view(), profile_id@) {
                Ok((followed, follower)) => r matches Ok(pair) && pair.0@ == followed && pair.1@
                    == follower && accounts@.len() >= 3,
                Err(e) => r == Err::<(Profile, Profile), ProcessError>(e),
            },
    {
        need(accounts, 3)?;
        let ghost before = accounts.deep_view();
        assert(before[0] == accounts@[0]@ && before[1] == accounts@[1]@ && before[2]
            == accounts@[2]@);
        signed(accounts)?;
        owned(accounts, 1, program_id)?;
        owned(accounts, 2, program_id)?;
        if !(accounts[1].key == *profile_id) {
            return Err(ProcessError::at(ErrorKind::InvalidArgument, 1));
        }
        apart(accounts, 1, 2)?;
        let followed = load_profile(accounts, 1)?;
        let follower = load_profile(accounts, 2)?;
        if !(follower.owner == accounts[0].key) {
            return Err(ProcessError::at(ErrorKind::PermissionDenied, 2));
        }
        Ok((followed, follower))
    }

    /// Writes both profiles of a follow or an unfollow back.
    fn store_follow_pair(accounts: &mut Vec<Account>, followed: &Profile, follower: &Profile) -> (r:
        Result<Vec<ProvisionStep>, ProcessError>)
        requires
            old(accounts)@.len() >= 3,
        ensures
            applied(
                old(accounts).deep_view(),
                final(accounts).deep_view(),
                r,
                Processor::follow_written(old(accounts).deep_view(), followed@, follower@),
            ),
    {
        let ghost before = accounts.deep_view();
        assert(before[1] == accounts@[1]@ && before[2] == accounts@[2]@);
        let followed_bytes = fits(accounts[1].data.len(), &followed.encode(), 1)?;
        let follower_bytes = fits(accounts[2].data.len(), &follower.encode(), 2)?;
        write(accounts, 1, &followed_bytes);
        let ghost middle = accounts.deep_view();
        assert(middle[2] == accounts@[2]@);
        write(accounts, 2, &follower_bytes);
        let steps: Vec<ProvisionStep> = Vec::new();
        assert(steps.deep_view() =~= Seq::<StepView>::empty());
        Ok(steps)
    }

    /// Follows a profile.
    ///
    /// Accounts: the caller, who signs; the account of the profile to
    /// follow, whose address is `profile_id`; the account of the caller's
    /// profile.
    pub fn process_follow(program_id: &Pubkey, accounts: &mut Vec<Account>, profile_id: Pubkey) -> (r:
        Result<Vec<ProvisionStep>, ProcessError>)
        ensures
            applied(
                old(accounts).deep_view(),
                final(accounts).deep_view(),
                r,
                Processor::follow(program_id@, old(accounts).deep_view(), profile_id@),
            ),
    {
        let (mut followed, mut follower) = Processor::load_follow_pair(
            program_id,
            accounts,
            &profile_id,
        )?;
        if followed.followers_count == u64::MAX {
            return Err(ProcessError::at(ErrorKind::ArithmeticOverflow, 1));
        }
        if follower.following_count == u64::MAX {
            return Err(ProcessError::at(ErrorKind::ArithmeticOverflow, 2));
        }
        followed.followers_count = followed.followers_count + 1;
        follower.following_count = follower.following_count + 1;
        Processor::store_follow_pair(accounts, &followed, &follower)
    }

    /// Stops following a profile.
    ///
    /// Accounts: the caller, who signs; the account of the profile to
    /// leave, whose address is `profile_id`; the account of the caller's
    /// profile.
    pub fn process_unfollow(
        program_id: &Pubkey,
        accounts: &mut Vec<Account>,
        profile_id: Pubkey,
    ) -> (r: Result<Vec<ProvisionStep>, ProcessError>)
        ensures
            applied(
                old(accounts).deep_view(),
                final(accounts).deep_view(),
                r,
                Processor::unfollow(program_id@, old(accounts).deep_view(), profile_id@),
            ),
    {
        let (mut followed, mut follower) = Processor::load_follow_pair(
            program_id,
            accounts,
            &profile_id,
        )?;
        if followed.followers_count > 0 {
            followed.followers_count = followed.followers_count - 1;
        }
        if follower.following_count > 0 {
            follower.following_count = follower.following_count - 1;
        }
        Processor::store_follow_pair(accounts, &followed, &follower)
    }

    /// The community that `CreateCommunity` writes: initialized, with the
    /// id 0, owned by the caller, who is its one member, and of the `sb/`
    /// kind where its name begins so.
    pub open spec fn new_community(
        owner: Seq<u8>,
        name: Seq<char>,
        description: Seq<char>,
        avatar: Seq<char>,
        rules: Seq<Seq<char>>,
    ) -> CommunityView {
        CommunityView {
            is_initialized: true,
            id: 0,
            name,
            description,
            avatar,
            owner,
            member_count: 1,
            rules,
            is_sb_community: is_sb_name(name),
        }
    }

    /// What `CreateCommunity` comes to: the new community is written, over
    /// whatever the account held. The account is created where the
    /// program does not own it yet.
    pub open spec fn create_community(
        program_id: Seq<u8>,
        accounts: Seq<AccountView>,
        name: Seq<char>,
        description: Seq<char>,
        avatar: Seq<char>,
        rules: Seq<Seq<char>>,
    ) -> Result<Transition, ProcessError> {
        if accounts.len() < 3 {
            rejected(ErrorKind::NotEnoughAccountKeys, accounts.len() as int)
        } else if !accounts[0].is_signer {
            rejected(ErrorKind::MissingRequiredSignature, 0)
        } else {
            let community = Processor::new_community(
                accounts[0].key,
                name,
                description,
                avatar,
                rules,
            );
            let fresh = accounts[1].provisioned(program_id, COMMUNITY_SPACE as nat);
            match store_failure(fresh.data.len(), community.encoding()) {
                Some(kind) => rejected(kind, 1),
                None => Ok(
                    Transition {
                        accounts: Processor::created(
                            accounts,
                            1,
                            program_id,
                            COMMUNITY_SPACE,
                            community.bytes(),
                        ),
                        steps: Processor::creation(accounts, 1, program_id, COMMUNITY_SPACE),
                    },
                ),
            }
        }
    }

    /// Creates a community.
    ///
    /// Accounts: the caller, who signs; the account of the community; the
    /// system program.
    pub fn process_create_community(
        program_id: &Pubkey,
        accounts: &mut Vec<Account>,
        name: String,
        description: String,
        avatar: String,
        rules: Vec<String>,
    ) -> (r: Result<Vec<ProvisionStep>, ProcessError>)
        ensures
            applied(
                old(accounts).deep_view(),
                final(accounts).deep_view(),
                r,
                Processor::create_community(
                    program_id@,
                    old(accounts).deep_view(),
                    name@,
                    description@,
                    avatar@,
                    rules.deep_view(),
                ),
            ),
    {
        need(accounts, 3)?;
        let ghost before = accounts.deep_view();
        assert(before[0] == accounts@[0]@ && before[1] == accounts@[1]@);
        signed(accounts)?;
        let is_sb_community = has_sb_prefix(&name);
        let community = Community {
            is_initialized: true,
            id: 0,
            name,
            description,
            avatar,
            owner: accounts[0].key,
            member_count: 1,
            rules,
            is_sb_community,
        };
        let room = capacity(accounts, 1, program_id, COMMUNITY_SPACE);
        let bytes = fits(room, &community.encode(), 1)?;
        let steps = create(accounts, 1, program_id, COMMUNITY_SPACE, &bytes);
        Ok(steps)
    }

    /// What `JoinCommunity` comes to: the community of the id
    /// `community_id` has one member more.
    pub open spec fn join_community(
        program_id: Seq<u8>,
        accounts: Seq<AccountView>,
        community_id: u64,
    ) -> Result<Transition, ProcessError> {
        if accounts.len() < 2 {
            rejected(ErrorKind::NotEnoughAccountKeys, accounts.len() as int)
        } else if !accounts[0].is_signer {
            rejected(ErrorKind::MissingRequiredSignature, 0)
        } else if accounts[1].owner != program_id {
            rejected(ErrorKind::NotFound, 1)
        } else {
            match CommunityView::decode(accounts[1].data) {
                None => rejected(ErrorKind::MalformedRecord, 1),
                Some(community) => if community.id != community_id {
                    rejected(ErrorKind::InvalidArgument, 1)
                } else if community.member_count == u64::MAX {
                    rejected(ErrorKind::ArithmeticOverflow, 1)
                } else {
                    let joined = Processor::joined(community);
                    match store_failure(accounts[1].data.len(), joined.encoding()) {
                        Some(kind) => rejected(kind, 1),
                        None => Ok(
                            Transition {
                                accounts: written(
                                    accounts,
                                    1,
                                    overwritten(accounts[1].data, joined.bytes()),
                                ),
                                steps: Seq::empty(),
                            },
                        ),
                    }
                },
            }
        }
    }

    /// Joins a community.
    ///
    /// Accounts: the caller, who signs; the account of the community,
    /// whose id is `community_id`.
    pub fn process_join_community(
        program_id: &Pubkey,
        accounts: &mut Vec<Account>,
        community_id: u64,
    ) -> (r: Result<Vec<ProvisionStep>, ProcessError>)
        ensures
            applied(
                old(accounts).deep_view(),
                final(accounts).deep_view(),
                r,
                Processor::join_community(program_id@, old(accounts).deep_view(), community_id),
            ),
    {
        need(accounts, 2)?;
        let ghost before = accounts.deep_view();
        assert(before[0] == accounts@[0]@ && before[1] == accounts@[1]@);
        signed(accounts)?;
        owned(accounts, 1, program_id)?;
        let mut community = load_community(accounts, 1)?;
        if community.id != community_id {
            return Err(ProcessError::at(ErrorKind::InvalidArgument, 1));
        }
        if community.member_count == u64::MAX {
            return Err(ProcessError::at(ErrorKind::ArithmeticOverflow, 1));
        }
        community.member_count = community.member_count + 1;
        let bytes = fits(accounts[1].data.len(), &community.encode(), 1)?;
        write(accounts, 1, &bytes);
        let steps: Vec<ProvisionStep> = Vec::new();
        assert(steps.deep_view() =~= Seq::<StepView>::empty());
        Ok(steps)
    }

    /// The address that the command needs derived: for `CreateProfile`
    /// that of the profile, from the caller's key, the tag and the
    /// username; for every other command none.
    pub open spec fn derived_for(
        program_id: Seq<u8>,
        accounts: Seq<AccountView>,
        command: InstructionView,
    ) -> Option<(Seq<u8>, u8)> {
        match command {
            InstructionView::CreateProfile { username, .. } => program_address(
                Processor::profile_seeds(accounts[0].key, username),
                program_id,
            ),
            _ => None,
        }
    }

    /// What a decoded command comes to, where `derived` is the address
    /// that it needs derived.
    pub open spec fn execute(
        program_id: Seq<u8>,
        accounts: Seq<AccountView>,
        command: InstructionView,
        derived: Option<(Seq<u8>, u8)>,
        unix_timestamp: i64,
    ) -> Result<Transition, ProcessError> {
        match command {
            InstructionView::CreateProfile { username, bio, profile_image, cover_image } => {
                Processor::create_profile(
                    program_id,
                    accounts,
                    derived,
                    username,
                    bio,
                    profile_image,
                    cover_image,
                    unix_timestamp,
                )
            },
            InstructionView::UpdateProfile { bio, profile_image, cover_image } => {
                Processor::update_profile(program_id, accounts, bio, profile_image, cover_image)
            },
            InstructionView::CreatePost { content, images } => Processor::create_post(
                program_id,
                accounts,
                content,
                images,
                unix_timestamp,
            ),
            InstructionView::LikePost { post_id } => Processor::like_post(
                program_id,
                accounts,
                post_id,
            ),
            InstructionView::CommentOnPost { content, parent_id } => Processor::comment(
                program_id,
                accounts,
                content,
                parent_id,
                unix_timestamp,
            ),
            InstructionView::FollowProfile { profile_id } => Processor::follow(
                program_id,
                accounts,
                profile_id,
            ),
            InstructionView::UnfollowProfile { profile_id } => Processor::unfollow(
                program_id,
                accounts,
                profile_id,
            ),
            InstructionView::CreateCommunity { name, description, avatar, rules } => {
                Processor::create_community(program_id, accounts, name, description, avatar, rules)
            },
            InstructionView::JoinCommunity { community_id } => Processor::join_community(
                program_id,
                accounts,
                community_id,
            ),
        }
    }

    /// What the command that `instruction_data` carries comes to: the
    /// refusal of bytes that are no command, or what the command does.
    pub open spec fn outcome(
        program_id: Seq<u8>,
        accounts: Seq<AccountView>,
        instruction_data: Seq<u8>,
        unix_timestamp: i64,
    ) -> Result<Transition, ProcessError> {
        match InstructionView::decode(instruction_data) {
            None => Err(ProcessError { kind: ErrorKind::InvalidCommand, slot: None }),
            Some(command) => Processor::execute(
                program_id,
                accounts,
                command,
                Processor::derived_for(program_id, accounts, command),
                unix_timestamp,
            ),
        }
    }

    /// Processes one command: decodes it and applies it to the accounts
    /// that it refers to, at the clock's reading `unix_timestamp`. It
    /// returns the steps by which the host provisions the account that
    /// the command created, if it created one. A command that is refused
    /// leaves every account as it was.
    pub fn process(
        program_id: &Pubkey,
        accounts: &mut Vec<Account>,
        instruction_data: &[u8],
        unix_timestamp: i64,
    ) -> (r: Result<Vec<ProvisionStep>, ProcessError>)
        ensures
            applied(
                old(accounts).deep_view(),
                final(accounts).deep_view(),
                r,
                Processor::outcome(
                    program_id@,
                    old(accounts).deep_view(),
                    instruction_data@,
                    unix_timestamp,
                ),
            ),
    {
        let command = match ContractInstruction::unpack(instruction_data) {
            Ok(command) => command,
            Err(kind) => { return Err(ProcessError { kind, slot: None }); },
        };
        match command {
            ContractInstruction::CreateProfile { username, bio, profile_image, cover_image } => {
                Processor::process_create_profile(
                    program_id,
                    accounts,
                    username,
                    bio,
                    profile_image,
                    cover_image,
                    unix_timestamp,
                )
            },
            ContractInstruction::UpdateProfile { bio, profile_image, cover_image } => {
                Processor::process_update_profile(
                    program_id,
                    accounts,
                    bio,
                    profile_image,
                    cover_image,
                )
            },
            ContractInstruction::CreatePost { content, images } => {
                Processor::process_create_post(
                    program_id,
                    accounts,
                    content,
                    images,
                    unix_timestamp,
                )
            },
            ContractInstruction::LikePost { post_id } => {
                Processor::process_like_post(program_id, accounts, post_id)
            },
            ContractInstruction::CommentOnPost { content, parent_id } => {
                Processor::process_comment(
                    program_id,
                    accounts,
                    content,
                    parent_id,
                    unix_timestamp,
                )
            },
            ContractInstruction::FollowProfile { profile_id } => {
                Processor::process_follow(program_id, accounts, profile_id)
            },
            ContractInstruction::UnfollowProfile { profile_id } => {
                Processor::process_unfollow(program_id, accounts, profile_id)
            },
            ContractInstruction::CreateCommunity { name, description, avatar, rules } => {
                Processor::process_create_community(
                    program_id,
                    accounts,
                    name,
                    description,
                    avatar,
                    rules,
                )
            },
            ContractInstruction::JoinCommunity { community_id } => {
                Processor::process_join_community(program_id, accounts, community_id)
            },
        }
    }
}

} // verus!
