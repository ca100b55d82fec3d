use blocks_contract::address::{system_program_id, Pubkey};
use blocks_contract::error::{BlocksError, ErrorKind, ProcessError};
use blocks_contract::rules::{
    has_sb_prefix, is_new_day, truncate, COMMENT_SPACE, COMMUNITY_SPACE, INITIAL_CREDIT_RATING,
    MAX_TEXT_BYTES, POST_SPACE, PROFILE_SPACE, SECONDS_IN_DAY,
};
use blocks_contract::state::{
    PostRating, ProgramState, UCR_AVERAGE_CONTRIBUTOR, UCR_BASELINE, UCR_LOW_VALUE_CONTRIBUTOR,
    UCR_SPAM_USER, UCR_TOP_CONTRIBUTOR, UCR_VALUABLE_CONTRIBUTOR, VERIFICATION_THRESHOLD,
};
use blocks_contract::wire::{
    put_bool, put_i64, put_key, put_u32, put_u64, read_bool, read_i64, read_key, read_text,
    read_texts, read_u32, read_u64, read_u8, store, text_len_fits, texts_len_fit, to_signed,
    to_unsigned,
};

#[test]
fn tier_never_falls_as_likes_grow() {
    let samples: [u64; 22] = [
        0, 1, 4, 5, 6, 19, 20, 21, 49, 50, 149, 150, 499, 500, 999, 1000, 1001, 999_999,
        1_000_000, 1_000_001, u64::MAX - 1, u64::MAX,
    ];
    for pair in samples.windows(2) {
        let low = PostRating::from_likes(pair[0]).to_rank();
        let high = PostRating::from_likes(pair[1]).to_rank();
        assert!(low <= high);
    }
    let mut last = 0u8;
    for likes in 0..2000u64 {
        let rank = PostRating::from_likes(likes).to_rank();
        assert!(last <= rank);
        last = rank;
    }
}

#[test]
fn rating_names() {
    assert_eq!(PostRating::Unrated.to_string(), "none");
    assert_eq!(PostRating::Bronze.to_string(), "bronze");
    assert_eq!(PostRating::Silver.to_string(), "silver");
    assert_eq!(PostRating::Gold.to_string(), "gold");
    assert_eq!(PostRating::Platinum.to_string(), "platinum");
    assert_eq!(PostRating::Diamond.to_string(), "diamond");
    assert_eq!(PostRating::Ace.to_string(), "ace");
    assert_eq!(PostRating::Conqueror.to_string(), "conqueror");
}

#[test]
fn constants_of_the_domain() {
    assert_eq!(UCR_TOP_CONTRIBUTOR, 420);
    assert_eq!(UCR_VALUABLE_CONTRIBUTOR, 69);
    assert_eq!(UCR_AVERAGE_CONTRIBUTOR, 1);
    assert_eq!(UCR_LOW_VALUE_CONTRIBUTOR, -3);
    assert_eq!(UCR_SPAM_USER, -10);
    assert_eq!(VERIFICATION_THRESHOLD, 70);
    assert_eq!(UCR_BASELINE, 100);
    assert_eq!(INITIAL_CREDIT_RATING, 100);
    assert_eq!(MAX_TEXT_BYTES, 128);
    assert_eq!(SECONDS_IN_DAY, 86400);
    assert_eq!(PROFILE_SPACE, 512);
    assert_eq!(POST_SPACE, 2048);
    assert_eq!(COMMENT_SPACE, 1024);
    assert_eq!(COMMUNITY_SPACE, 2048);
    let state = ProgramState { profiles_count: 1, posts_count: 2, communities_count: 3 };
    assert_eq!(state, ProgramState { profiles_count: 1, posts_count: 2, communities_count: 3 });
}

#[test]
fn reserved_errors_have_their_codes_and_messages() {
    let all = [
        (BlocksError::InvalidInstruction, "Invalid Instruction"),
        (BlocksError::NotRentExempt, "Not Rent Exempt"),
        (BlocksError::ProfileAlreadyExists, "Profile Already Exists"),
        (BlocksError::ProfileNotFound, "Profile Not Found"),
        (BlocksError::PostNotFound, "Post Not Found"),
        (BlocksError::CommunityNotFound, "Community Not Found"),
        (BlocksError::NotProfileOwner, "Not Profile Owner"),
        (BlocksError::NotPostOwner, "Not Post Owner"),
        (BlocksError::NotCommunityOwner, "Not Community Owner"),
        (BlocksError::InvalidCommunityName, "Invalid Community Name"),
        (BlocksError::AlreadyMember, "Already Member"),
        (BlocksError::CommunityLimitExceeded, "Community Limit Exceeded"),
        (BlocksError::DailyPostLimitReached, "Daily Post Limit Reached"),
        (BlocksError::PostTimeLimit, "Post Time Limit"),
        (BlocksError::SpamUser, "Spam User"),
        (BlocksError::AlreadyLiked, "Already Liked"),
        (BlocksError::AlreadyDisliked, "Already Disliked"),
        (BlocksError::PostInKillZone, "Post In Kill Zone"),
        (BlocksError::InsufficientFunds, "Insufficient Funds"),
    ];
    for (i, (error, message)) in all.iter().enumerate() {
        assert_eq!(error.code(), i as u32);
        assert_eq!(error.message(), *message);
        assert_eq!(ErrorKind::from(*error), ErrorKind::Custom(i as u32));
    }
    assert_eq!(ErrorKind::from(BlocksError::DailyPostLimitReached), ErrorKind::Custom(12));
}

#[test]
fn a_failure_names_its_kind_and_its_account() {
    let e = ProcessError::at(ErrorKind::NotFound, 2);
    assert_eq!(e.kind, ErrorKind::NotFound);
    assert_eq!(e.slot, Some(2));
}

#[test]
fn short_texts_are_kept_whole() {
    assert_eq!(truncate(String::new(), 128), "");
    assert_eq!(truncate(String::from("alice"), 128), "alice");
    assert_eq!(truncate("a".repeat(128), 128), "a".repeat(128));
    assert_eq!(truncate("é".repeat(64), 128), "é".repeat(64));
}

#[test]
fn long_texts_are_cut_to_the_cap() {
    assert_eq!(truncate("a".repeat(129), 128), "a".repeat(128));
    assert_eq!(truncate("a".repeat(1000), 128), "a".repeat(128));
    assert_eq!(truncate(String::from("hello"), 0), "");
    assert_eq!(truncate(String::from("hello"), 3), "hel");
}

#[test]
fn a_cut_never_parts_a_character() {
    // 127 bytes of ASCII and then a character of two bytes: the cut falls
    // in front of that character.
    let text = format!("{}é", "a".repeat(127));
    assert_eq!(text.len(), 129);
    assert_eq!(truncate(text, 128), "a".repeat(127));
    // Characters of three bytes: 42 of them are 126 bytes.
    let text = "€".repeat(50);
    assert_eq!(truncate(text, 128), "€".repeat(42));
    // Characters of four bytes: 32 of them are 128 bytes.
    let text = "😀".repeat(40);
    assert_eq!(truncate(text, 128), "😀".repeat(32));
    let text = format!("a{}", "😀".repeat(40));
    assert_eq!(truncate(text, 128), format!("a{}", "😀".repeat(31)));
    assert_eq!(truncate(String::from("é"), 1), "");
}

#[test]
fn names_with_the_sb_prefix() {
    assert!(has_sb_prefix(&String::from("sb/rust")));
    assert!(has_sb_prefix(&String::from("sb/")));
    assert!(!has_sb_prefix(&String::from("sb")));
    assert!(!has_sb_prefix(&String::new()));
    assert!(!has_sb_prefix(&String::from("SB/rust")));
    assert!(!has_sb_prefix(&String::from("rust/sb/")));
    assert!(!has_sb_prefix(&String::from("sbé/")));
    assert!(!has_sb_prefix(&String::from(" sb/x")));
    for name in ["sb/rust", "sb/", "sb", "", "SB/x", "xsb/", "s", "sb\\x", "sb/é"] {
        assert_eq!(has_sb_prefix(&String::from(name)), name.starts_with("sb/"));
    }
}

#[test]
fn a_day_has_passed_only_after_more_than_86400_seconds() {
    assert!(!is_new_day(1000, 1000));
    assert!(!is_new_day(1000, 1000 + 86400));
    assert!(is_new_day(1000, 1000 + 86401));
    assert!(is_new_day(0, 1_700_000_000));
    assert!(!is_new_day(1_700_000_000, 0));
    assert!(!is_new_day(u64::MAX, 0));
    assert!(is_new_day(0, u64::MAX));
}

#[test]
fn signed_and_unsigned_share_their_bits() {
    assert_eq!(to_unsigned(0), 0);
    assert_eq!(to_unsigned(1), 1);
    assert_eq!(to_unsigned(-1), u64::MAX);
    assert_eq!(to_unsigned(i64::MAX), i64::MAX as u64);
    assert_eq!(to_unsigned(i64::MIN), 1u64 << 63);
    assert_eq!(to_signed(0), 0);
    assert_eq!(to_signed(u64::MAX), -1);
    assert_eq!(to_signed(1u64 << 63), i64::MIN);
    assert_eq!(to_signed((1u64 << 63) - 1), i64::MAX);
    for x in [0i64, 1, -1, 42, -42, i64::MAX, i64::MIN, 1_700_000_000, -1_700_000_000] {
        assert_eq!(to_unsigned(x), x as u64);
        assert_eq!(to_signed(x as u64), x);
        assert_eq!(to_signed(to_unsigned(x)), x);
    }
}

#[test]
fn integers_are_written_lowest_byte_first() {
    let mut out = vec![9u8];
    put_u32(&mut out, 0x0403_0201);
    assert_eq!(out, vec![9, 1, 2, 3, 4]);
    let mut out = Vec::new();
    put_u64(&mut out, 0x0807_0605_0403_0201);
    assert_eq!(out, vec![1, 2, 3, 4, 5, 6, 7, 8]);
    let mut out = Vec::new();
    put_i64(&mut out, -2);
    assert_eq!(out, vec![0xfe, 0xff, 0xff, 0xff, 0xff, 0xff, 0xff, 0xff]);
    let mut out = Vec::new();
    put_bool(&mut out, true);
    put_bool(&mut out, false);
    assert_eq!(out, vec![1, 0]);
    for x in [0u64, 1, 255, 256, 65535, 65536, u32::MAX as u64, u64::MAX, 0x0123_4567_89ab_cdef] {
        let mut out = Vec::new();
        put_u64(&mut out, x);
        assert_eq!(out, x.to_le_bytes().to_vec());
        assert_eq!(read_u64(&out, 0), Some((x, 8)));
    }
    for x in [0u32, 1, 255, 256, 65535, 65536, u32::MAX, 0x89ab_cdef] {
        let mut out = Vec::new();
        put_u32(&mut out, x);
        assert_eq!(out, x.to_le_bytes().to_vec());
        assert_eq!(read_u32(&out, 0), Some((x, 4)));
    }
    for x in [0i64, -1, i64::MIN, i64::MAX, 100, -100] {
        let mut out = Vec::new();
        put_i64(&mut out, x);
        assert_eq!(out, x.to_le_bytes().to_vec());
        assert_eq!(read_i64(&out, 0), Some((x, 8)));
    }
}

#[test]
fn readers_stop_at_the_end_of_the_bytes() {
    let data = [1u8, 2, 3, 4, 5, 6, 7, 8, 9];
    assert_eq!(read_u8(&data, 8), Some((9, 9)));
    assert_eq!(read_u8(&data, 9), None);
    assert_eq!(read_u32(&data, 5), Some((0x0908_0706, 9)));
    assert_eq!(read_u32(&data, 6), None);
    assert_eq!(read_u64(&data, 1), Some((0x0908_0706_0504_0302, 9)));
    assert_eq!(read_u64(&data, 2), None);
    assert_eq!(read_i64(&data, 2), None);
    assert_eq!(read_bool(&data, 0), Some((true, 1)));
    assert_eq!(read_bool(&data, 1), None);
    assert_eq!(read_bool(&[0], 0), Some((false, 1)));
    assert_eq!(read_bool(&[0], 1), None);
    assert_eq!(read_key(&[0u8; 31], 0), None);
    assert_eq!(read_key(&[7u8; 40], 8), Some((Pubkey::new([7; 32]), 40)));
    assert_eq!(read_key(&[7u8; 40], 9), None);
}

#[test]
fn texts_are_read_behind_their_length() {
    let out = vec![3u8, 0, 0, 0, b'h', 0xc3, 0xa9];
    assert_eq!(read_text(&out, 0), Some((String::from("hé"), 7)));
    assert_eq!(read_text(&out[..6], 0), None);
    assert_eq!(read_text(&[1, 0, 0, 0, 0xff], 0), None);
    assert_eq!(read_text(&[0, 0, 0, 0], 0), Some((String::new(), 4)));
    assert_eq!(read_text(&[0, 0, 0], 0), None);
    assert!(text_len_fits(&String::from("hé")));
    let out =
        vec![0xaau8, 3, 0, 0, 0, 1, 0, 0, 0, b'a', 0, 0, 0, 0, 2, 0, 0, 0, b'b', b'c'];
    assert_eq!(
        read_texts(&out, 1),
        Some((vec![String::from("a"), String::new(), String::from("bc")], 20))
    );
    assert_eq!(read_texts(&out[..19], 1), None);
    assert_eq!(read_texts(&[0, 0, 0, 0], 0), Some((Vec::new(), 4)));
    assert_eq!(read_texts(&[2, 0, 0, 0, 0, 0, 0, 0], 0), None);
    assert_eq!(read_texts(&[0xff, 0xff, 0xff, 0xff, 0, 0, 0, 0], 0), None);
    assert!(texts_len_fit(&vec![String::from("a")]));
    let mut key = Vec::new();
    put_key(&mut key, &Pubkey::new([3; 32]));
    assert_eq!(key, vec![3u8; 32]);
}

#[test]
fn readers_give_nothing_behind_the_bytes() {
    let data = [0u8; 64];
    assert_eq!(read_u8(&data, 65), None);
    assert_eq!(read_bool(&data, 65), None);
    assert_eq!(read_u32(&data, 65), None);
    assert_eq!(read_u64(&data, 65), None);
    assert_eq!(read_i64(&data, usize::MAX), None);
    assert_eq!(read_key(&data, 65), None);
    assert_eq!(read_text(&data, 65), None);
    assert_eq!(read_texts(&data, usize::MAX), None);
    assert_eq!(read_u8(&data, 64), None);
    assert_eq!(read_text(&data, 60), Some((String::new(), 64)));
}

#[test]
fn storing_overwrites_the_front_only() {
    let mut buffer = vec![1u8, 2, 3, 4, 5];
    assert_eq!(store(&mut buffer, &Some(vec![9, 8])), Ok(()));
    assert_eq!(buffer, vec![9, 8, 3, 4, 5]);
    assert_eq!(store(&mut buffer, &Some(Vec::new())), Ok(()));
    assert_eq!(buffer, vec![9, 8, 3, 4, 5]);
    assert_eq!(store(&mut buffer, &Some(vec![7; 5])), Ok(()));
    assert_eq!(buffer, vec![7; 5]);
    assert_eq!(store(&mut buffer, &Some(vec![6; 6])), Err(ErrorKind::CapacityExceeded));
    assert_eq!(buffer, vec![7; 5]);
    assert_eq!(store(&mut buffer, &None), Err(ErrorKind::Unencodable));
    assert_eq!(buffer, vec![7; 5]);
}

#[test]
fn the_system_program_is_the_address_of_zeros() {
    assert_eq!(system_program_id(), Pubkey::new([0; 32]));
    assert_eq!(system_program_id().to_bytes(), solana_program::system_program::id().to_bytes());
}

#[test]
fn addresses_are_equal_where_their_bytes_are() {
    let a = Pubkey::new([1; 32]);
    let mut bytes = [1u8; 32];
    assert_eq!(a, Pubkey::new(bytes));
    bytes[31] = 2;
    assert_ne!(a, Pubkey::new(bytes));
    bytes[31] = 1;
    bytes[0] = 0;
    assert_ne!(a, Pubkey::new(bytes));
    assert_eq!(a.to_vec(), vec![1u8; 32]);
    assert_eq!(a.to_bytes(), [1u8; 32]);
}
