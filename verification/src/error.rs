//! Failures of the command processor and the reserved error codes.

use vstd::prelude::*;

verus! {

/// Why a command, or a record operation, was refused.
#[derive(Clone, Copy, Debug, PartialEq, Eq, Structural)]
pub enum ErrorKind {
    /// The command bytes do not decode to a command.
    InvalidCommand,
    /// The command names more accounts than were handed in.
    NotEnoughAccountKeys,
    /// The caller did not sign.
    MissingRequiredSignature,
    /// The account is not owned by this program, so it holds no record.
    NotFound,
    /// A supplied id or key does not match the record or account it
    /// should name.
    InvalidArgument,
    /// The caller is not the owner of the record.
    PermissionDenied,
    /// An account that the command needs is not the one that was handed in.
    InvalidAccountData,
    /// The bytes of the account do not decode to a record.
    MalformedRecord,
    /// The encoded record is longer than the buffer that should hold it.
    CapacityExceeded,
    /// A text or a list is longer than a 32-bit length prefix can say.
    Unencodable,
    /// A counter is at its maximum and cannot be incremented.
    ArithmeticOverflow,
    /// One of the reserved codes of `BlocksError`.
    Custom(u32),
}

/// A failure of a command: its kind and the position, in the command's
/// account list, of the account that caused it. For a command that names
/// more accounts than it was given, that is the first position that is
/// missing; a command that does not decode has none.
#[derive(Clone, Copy, Debug, PartialEq, Eq)]
pub struct ProcessError {
    pub kind: ErrorKind,
    pub slot: Option<usize>,
}

/// The failure of kind `kind` at position `slot`.
pub open spec fn failure_at(kind: ErrorKind, slot: int) -> ProcessError {
    ProcessError { kind, slot: Some(slot as usize) }
}

impl ProcessError {
    /// The failure of kind `kind` at position `slot`.
    pub fn at(kind: ErrorKind, slot: usize) -> (r: ProcessError)
        ensures
            r == failure_at(kind, slot as int),
    {
        ProcessError { kind, slot: Some(slot) }
    }
}

/// Reserved failures of the domain, each with a stable code.
#[derive(Clone, Copy, Debug, PartialEq, Eq, Structural)]
pub enum BlocksError {
    InvalidInstruction,
    NotRentExempt,
    ProfileAlreadyExists,
    ProfileNotFound,
    PostNotFound,
    CommunityNotFound,
    NotProfileOwner,
    NotPostOwner,
    NotCommunityOwner,
    InvalidCommunityName,
    AlreadyMember,
    CommunityLimitExceeded,
    DailyPostLimitReached,
    PostTimeLimit,
    SpamUser,
    AlreadyLiked,
    AlreadyDisliked,
    PostInKillZone,
    InsufficientFunds,
}

impl BlocksError {
    /// The code of the failure: its position in the declaration.
    pub open spec fn spec_code(self) -> u32 {
        match self {
            BlocksError::InvalidInstruction => 0,
            BlocksError::NotRentExempt => 1,
            BlocksError::ProfileAlreadyExists => 2,
            BlocksError::ProfileNotFound => 3,
            BlocksError::PostNotFound => 4,
            BlocksError::CommunityNotFound => 5,
            BlocksError::NotProfileOwner => 6,
            BlocksError::NotPostOwner => 7,
            BlocksError::NotCommunityOwner => 8,
            BlocksError::InvalidCommunityName => 9,
            BlocksError::AlreadyMember => 10,
            BlocksError::CommunityLimitExceeded => 11,
            BlocksError::DailyPostLimitReached => 12,
            BlocksError::PostTimeLimit => 13,
            BlocksError::SpamUser => 14,
            BlocksError::AlreadyLiked => 15,
            BlocksError::AlreadyDisliked => 16,
            BlocksError::PostInKillZone => 17,
            BlocksError::InsufficientFunds => 18,
        }
    }

    /// The code of the failure.
    #[verifier::when_used_as_spec(spec_code)]
    pub fn code(self) -> (r: u32)
        ensures
            r == self.spec_code(),
            r <= 18,
    {
        match self {
            BlocksError::InvalidInstruction => 0,
            BlocksError::NotRentExempt => 1,
            BlocksError::ProfileAlreadyExists => 2,
            BlocksError::ProfileNotFound => 3,
            BlocksError::PostNotFound => 4,
            BlocksError::CommunityNotFound => 5,
            BlocksError::NotProfileOwner => 6,
            BlocksError::NotPostOwner => 7,
            BlocksError::NotCommunityOwner => 8,
            BlocksError::InvalidCommunityName => 9,
            BlocksError::AlreadyMember => 10,
            BlocksError::CommunityLimitExceeded => 11,
            BlocksError::DailyPostLimitReached => 12,
            BlocksError::PostTimeLimit => 13,
            BlocksError::SpamUser => 14,
            BlocksError::AlreadyLiked => 15,
            BlocksError::AlreadyDisliked => 16,
            BlocksError::PostInKillZone => 17,
            BlocksError::InsufficientFunds => 18,
        }
    }

    /// The message of the failure.
    pub open spec fn spec_message(self) -> Seq<char> {
        match self {
            BlocksError::InvalidInstruction => "Invalid Instruction"@,
            BlocksError::NotRentExempt => "Not Rent Exempt"@,
            BlocksError::ProfileAlreadyExists => "Profile Already Exists"@,
            BlocksError::ProfileNotFound => "Profile Not Found"@,
            BlocksError::PostNotFound => "Post Not Found"@,
            BlocksError::CommunityNotFound => "Community Not Found"@,
            BlocksError::NotProfileOwner => "Not Profile Owner"@,
            BlocksError::NotPostOwner => "Not Post Owner"@,
            BlocksError::NotCommunityOwner => "Not Community Owner"@,
            BlocksError::InvalidCommunityName => "Invalid Community Name"@,
            BlocksError::AlreadyMember => "Already Member"@,
            BlocksError::CommunityLimitExceeded => "Community Limit Exceeded"@,
            BlocksError::DailyPostLimitReached => "Daily Post Limit Reached"@,
            BlocksError::PostTimeLimit => "Post Time Limit"@,
            BlocksError::SpamUser => "Spam User"@,
            BlocksError::AlreadyLiked => "Already Liked"@,
            BlocksError::AlreadyDisliked => "Already Disliked"@,
            BlocksError::PostInKillZone => "Post In Kill Zone"@,
            BlocksError::InsufficientFunds => "Insufficient Funds"@,
        }
    }

    /// The message of the failure.
    pub fn message(self) -> (r: &'static str)
        ensures
            r@ == self.spec_message(),
    {
        match self {
            BlocksError::InvalidInstruction => "Invalid Instruction",
            BlocksError::NotRentExempt => "Not Rent Exempt",
            BlocksError::ProfileAlreadyExists => "Profile Already Exists",
            BlocksError::ProfileNotFound => "Profile Not Found",
            BlocksError::PostNotFound => "Post Not Found",
            BlocksError::CommunityNotFound => "Community Not Found",
            BlocksError::NotProfileOwner => "Not Profile Owner",
            BlocksError::NotPostOwner => "Not Post Owner",
            BlocksError::NotCommunityOwner => "Not Community Owner",
            BlocksError::InvalidCommunityName => "Invalid Community Name",
            BlocksError::AlreadyMember => "Already Member",
            BlocksError::CommunityLimitExceeded => "Community Limit Exceeded",
            BlocksError::DailyPostLimitReached => "Daily Post Limit Reached",
            BlocksError::PostTimeLimit => "Post Time Limit",
            BlocksError::SpamUser => "Spam User",
            BlocksError::AlreadyLiked => "Already Liked",
            BlocksError::AlreadyDisliked => "Already Disliked",
            BlocksError::PostInKillZone => "Post In Kill Zone",
            BlocksError::InsufficientFunds => "Insufficient Funds",
        }
    }
}

impl From<BlocksError> for ErrorKind {
    fn from(e: BlocksError) -> (r: ErrorKind) {
        ErrorKind::Custom(e.code())
    }
}

impl vstd::std_specs::convert::FromSpecImpl<BlocksError> for ErrorKind {
    open spec fn obeys_from_spec() -> bool {
        true
    }

    open spec fn from_spec(e: BlocksError) -> ErrorKind {
        ErrorKind::Custom(e.spec_code())
    }
}

} // verus!
