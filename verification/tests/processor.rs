use blocks_contract::account::{Account, ProvisionStep};
use blocks_contract::address::{system_program_id, Pubkey};
use blocks_contract::error::{ErrorKind, ProcessError};
use blocks_contract::instruction::ContractInstruction;
use blocks_contract::processor::Processor;
use blocks_contract::state::{
    pack_community_into_slice, pack_post_into_slice, pack_profile_into_slice,
    unpack_community_from_slice, unpack_post_from_slice, unpack_profile_from_slice, Community,
    Post, PostRating, Profile,
};

const NOON: i64 = 1_700_000_000;

fn key(n: u8) -> Pubkey {
    let mut bytes = [0u8; 32];
    for (i, b) in bytes.iter_mut().enumerate() {
        *b = n.wrapping_mul(31).wrapping_add(i as u8);
    }
    Pubkey::new(bytes)
}

fn program() -> Pubkey {
    key(200)
}

fn wallet(n: u8) -> Account {
    Account::new(key(n), system_program_id(), true, Vec::new())
}

fn system() -> Account {
    Account::new(system_program_id(), key(250), false, Vec::new())
}

/// An account that no program has been assigned yet.
fn fresh(address: Pubkey) -> Account {
    Account::new(address, system_program_id(), false, Vec::new())
}

/// An account of the program with `space` bytes of zeros.
fn owned(address: Pubkey, space: usize) -> Account {
    Account::new(address, program(), false, vec![0u8; space])
}

fn profile_address(user: &Pubkey, username: &str) -> (Pubkey, u8) {
    let (address, bump) = solana_program::pubkey::Pubkey::find_program_address(
        &[&user.to_bytes(), b"profile", username.as_bytes()],
        &solana_program::pubkey::Pubkey::new_from_array(program().to_bytes()),
    );
    (Pubkey::new(address.to_bytes()), bump)
}

fn profile_of(owner: Pubkey) -> Profile {
    Profile {
        is_initialized: true,
        owner,
        username: String::from("bob"),
        bio: String::from("bio"),
        profile_image: String::from("p.png"),
        cover_image: String::from("c.png"),
        created_at: 1_600_000_000,
        followers_count: 0,
        following_count: 0,
        user_credit_rating: 100,
        posts_count: 0,
        last_post_timestamp: 0,
        daily_post_count: 0,
        is_verified: false,
    }
}

fn post_of(author: Pubkey, id: u64) -> Post {
    Post {
        is_initialized: true,
        id,
        author,
        content: String::from("a post"),
        timestamp: 1_600_000_000,
        likes: 0,
        comments: 0,
        mirrors: 0,
        images: Vec::new(),
        rating: PostRating::Unrated,
        in_kill_zone: false,
    }
}

fn holding_profile(address: Pubkey, profile: &Profile) -> Account {
    let mut account = owned(address, 512);
    pack_profile_into_slice(profile, &mut account.data).unwrap();
    account
}

fn holding_post(address: Pubkey, post: &Post) -> Account {
    let mut account = owned(address, 2048);
    pack_post_into_slice(post, &mut account.data).unwrap();
    account
}

fn profile_in(account: &Account) -> Profile {
    unpack_profile_from_slice(&account.data).unwrap()
}

fn post_in(account: &Account) -> Post {
    unpack_post_from_slice(&account.data).unwrap()
}

fn community_in(account: &Account) -> Community {
    unpack_community_from_slice(&account.data).unwrap()
}

fn refused(kind: ErrorKind, slot: usize) -> Result<Vec<ProvisionStep>, ProcessError> {
    Err(ProcessError { kind, slot: Some(slot) })
}

fn run(
    accounts: &mut Vec<Account>,
    command: ContractInstruction,
    now: i64,
) -> Result<Vec<ProvisionStep>, ProcessError> {
    let data = command.pack().unwrap();
    Processor::process(&program(), accounts, &data, now)
}

/// Runs a command that must be refused, and checks that it left every
/// account as it was.
fn run_refused(accounts: &Vec<Account>, command: ContractInstruction, kind: ErrorKind, slot: usize) {
    let mut after = accounts.clone();
    assert_eq!(run(&mut after, command, NOON), refused(kind, slot));
    assert_eq!(&after, accounts);
}

fn create_profile(username: &str, bio: &str) -> ContractInstruction {
    ContractInstruction::CreateProfile {
        username: String::from(username),
        bio: String::from(bio),
        profile_image: String::new(),
        cover_image: String::new(),
    }
}

fn create_post(content: &str) -> ContractInstruction {
    ContractInstruction::CreatePost { content: String::from(content), images: Vec::new() }
}

// ---------------------------------------------------------------------
// From the first profile to the first rating
// ---------------------------------------------------------------------

#[test]
fn end_to_end() {
    let alice = wallet(1);
    let (address, bump) = profile_address(&alice.key, "alice");

    // CreateProfile("alice", bio = "hi")
    let mut accounts = vec![alice.clone(), fresh(address), system()];
    let steps = run(&mut accounts, create_profile("alice", "hi"), NOON).unwrap();
    assert_eq!(steps.len(), 3);
    let seeds = vec![
        alice.key.to_vec(),
        b"profile".to_vec(),
        b"alice".to_vec(),
        vec![bump],
    ];
    assert_eq!(steps[0], ProvisionStep::Fund { from: alice.key, to: address, space: 512 });
    assert_eq!(
        steps[1],
        ProvisionStep::Allocate { account: address, space: 512, seeds: seeds.clone() }
    );
    assert_eq!(steps[2], ProvisionStep::Assign { account: address, owner: program(), seeds });
    let profile_account = accounts[1].clone();
    assert_eq!(profile_account.owner, program());
    assert_eq!(profile_account.data.len(), 512);
    let profile = profile_in(&profile_account);
    assert!(profile.is_initialized);
    assert_eq!(profile.owner, alice.key);
    assert_eq!(profile.username, "alice");
    assert_eq!(profile.bio, "hi");
    assert_eq!(profile.created_at, NOON as u64);
    assert_eq!(profile.posts_count, 0);
    assert_eq!(profile.user_credit_rating, 100);
    assert_eq!(profile.followers_count, 0);
    assert_eq!(profile.following_count, 0);
    assert_eq!(profile.daily_post_count, 0);
    assert_eq!(profile.last_post_timestamp, 0);
    assert!(!profile.is_verified);

    // CreatePost("hello") twice on the same day
    let mut accounts = vec![alice.clone(), fresh(key(11)), profile_account, system()];
    let steps = run(&mut accounts, create_post("hello"), NOON + 10).unwrap();
    assert_eq!(
        steps,
        vec![ProvisionStep::Create { from: alice.key, to: key(11), space: 2048, owner: program() }]
    );
    let first = post_in(&accounts[1]);
    assert_eq!(first.id, 1);
    assert_eq!(first.content, "hello");
    let profile_account = accounts[2].clone();

    let mut accounts = vec![alice.clone(), fresh(key(12)), profile_account, system()];
    run(&mut accounts, create_post("hello"), NOON + 20).unwrap();
    let second_account = accounts[1].clone();
    let second = post_in(&second_account);
    assert_eq!(second.id, 2);
    assert_eq!(second.author, alice.key);
    assert_eq!(second.timestamp, (NOON + 20) as u64);
    assert_eq!(second.likes, 0);
    assert_eq!(second.rating, PostRating::Unrated);
    let profile_account = accounts[2].clone();
    let profile = profile_in(&profile_account);
    assert_eq!(profile.daily_post_count, 2);
    assert_eq!(profile.posts_count, 2);
    assert_eq!(profile.last_post_timestamp, (NOON + 20) as u64);

    // LikePost five times
    let mut accounts = vec![wallet(2), second_account, profile_account];
    for likes in 1..=5u64 {
        let steps = run(&mut accounts, ContractInstruction::LikePost { post_id: 2 }, NOON + 30);
        assert_eq!(steps, Ok(Vec::new()));
        let post = post_in(&accounts[1]);
        assert_eq!(post.likes, likes);
        assert_eq!(post.rating, PostRating::from_likes(likes));
        assert!(!post.in_kill_zone);
    }
    assert_eq!(post_in(&accounts[1]).rating, PostRating::Bronze);
    assert_eq!(profile_in(&accounts[2]).user_credit_rating, 105);
}

// ---------------------------------------------------------------------
// CreateProfile
// ---------------------------------------------------------------------

#[test]
fn create_profile_in_an_account_of_the_program_needs_no_steps() {
    let alice = wallet(1);
    let (address, _) = profile_address(&alice.key, "alice");
    let mut accounts = vec![alice.clone(), owned(address, 300), system()];
    assert_eq!(run(&mut accounts, create_profile("alice", "hi"), NOON), Ok(Vec::new()));
    assert_eq!(accounts[1].data.len(), 300);
    assert_eq!(profile_in(&accounts[1]).username, "alice");
}

#[test]
fn create_profile_writes_over_an_older_profile() {
    let alice = wallet(1);
    let (address, _) = profile_address(&alice.key, "alice");
    let mut old = profile_of(alice.key);
    old.posts_count = 40;
    old.user_credit_rating = 7;
    old.bio = "an older and much longer bio than the new one".repeat(3);
    let mut accounts = vec![alice.clone(), holding_profile(address, &old), system()];
    assert_eq!(run(&mut accounts, create_profile("alice", "hi"), NOON), Ok(Vec::new()));
    let profile = profile_in(&accounts[1]);
    assert_eq!(profile.posts_count, 0);
    assert_eq!(profile.user_credit_rating, 100);
    assert_eq!(profile.bio, "hi");
}

#[test]
fn create_profile_caps_its_texts() {
    let alice = wallet(1);
    let (address, _) = profile_address(&alice.key, "alice");
    let mut accounts = vec![alice.clone(), owned(address, 1024), system()];
    let command = ContractInstruction::CreateProfile {
        username: String::from("alice"),
        bio: "b".repeat(300),
        profile_image: format!("{}é", "p".repeat(127)),
        cover_image: "c".repeat(128),
    };
    assert_eq!(run(&mut accounts, command, NOON), Ok(Vec::new()));
    let profile = profile_in(&accounts[1]);
    assert_eq!(profile.bio, "b".repeat(128));
    assert_eq!(profile.profile_image, "p".repeat(127));
    assert_eq!(profile.cover_image, "c".repeat(128));
}

#[test]
fn create_profile_with_four_capped_texts_does_not_fit_512_bytes() {
    let alice = wallet(1);
    let name = "n".repeat(32);
    let (address, _) = profile_address(&alice.key, &name);
    let accounts = vec![alice.clone(), fresh(address), system()];
    let command = ContractInstruction::CreateProfile {
        username: name,
        bio: "b".repeat(200),
        profile_image: "p".repeat(200),
        cover_image: "c".repeat(200),
    };
    run_refused(&accounts, command, ErrorKind::CapacityExceeded, 1);
}

#[test]
fn create_profile_takes_the_clock_as_unsigned() {
    let alice = wallet(1);
    let (address, _) = profile_address(&alice.key, "alice");
    let mut accounts = vec![alice.clone(), fresh(address), system()];
    run(&mut accounts, create_profile("alice", "hi"), -1).unwrap();
    assert_eq!(profile_in(&accounts[1]).created_at, u64::MAX);
}

#[test]
fn create_profile_at_another_address_is_refused() {
    let alice = wallet(1);
    let (address, _) = profile_address(&alice.key, "alice");
    let (other, _) = profile_address(&alice.key, "alicf");
    assert_ne!(address, other);
    let accounts = vec![alice.clone(), fresh(other), system()];
    run_refused(&accounts, create_profile("alice", "hi"), ErrorKind::InvalidArgument, 1);
    let accounts = vec![alice.clone(), fresh(alice.key), system()];
    run_refused(&accounts, create_profile("alice", "hi"), ErrorKind::InvalidArgument, 1);
    // The address of the same name for another caller.
    let (foreign, _) = profile_address(&key(2), "alice");
    let accounts = vec![alice.clone(), fresh(foreign), system()];
    run_refused(&accounts, create_profile("alice", "hi"), ErrorKind::InvalidArgument, 1);
}

#[test]
fn create_profile_with_a_seed_too_long_to_derive_from_is_refused() {
    let alice = wallet(1);
    let name = "n".repeat(33);
    let accounts = vec![alice.clone(), fresh(key(9)), system()];
    run_refused(&accounts, create_profile(&name, "hi"), ErrorKind::InvalidArgument, 1);
}

#[test]
fn create_profile_checks_its_accounts_in_order() {
    let alice = wallet(1);
    let (address, _) = profile_address(&alice.key, "alice");
    run_refused(&vec![], create_profile("alice", "hi"), ErrorKind::NotEnoughAccountKeys, 0);
    run_refused(
        &vec![alice.clone(), fresh(address)],
        create_profile("alice", "hi"),
        ErrorKind::NotEnoughAccountKeys,
        2,
    );
    let mut unsigned = alice.clone();
    unsigned.is_signer = false;
    run_refused(
        &vec![unsigned, fresh(address), fresh(key(3))],
        create_profile("alice", "hi"),
        ErrorKind::MissingRequiredSignature,
        0,
    );
    run_refused(
        &vec![alice.clone(), fresh(address), fresh(key(3))],
        create_profile("alice", "hi"),
        ErrorKind::InvalidAccountData,
        2,
    );
}

#[test]
fn create_profile_at_a_given_address() {
    let alice = wallet(1);
    let address = key(77);
    let mut accounts = vec![alice.clone(), fresh(address), system()];
    let steps = Processor::create_profile_at(
        &program(),
        &mut accounts,
        Some((address, 254)),
        String::from("alice"),
        String::from("hi"),
        String::new(),
        String::new(),
        NOON,
    )
    .unwrap();
    assert_eq!(steps.len(), 3);
    assert_eq!(
        steps[1],
        ProvisionStep::Allocate {
            account: address,
            space: 512,
            seeds: Processor::seeds_of_signer(&alice.key, &String::from("alice"), 254),
        }
    );
    assert_eq!(profile_in(&accounts[1]).owner, alice.key);
    let mut accounts = vec![alice.clone(), fresh(address), system()];
    let before = accounts.clone();
    assert_eq!(
        Processor::create_profile_at(
            &program(),
            &mut accounts,
            None,
            String::from("alice"),
            String::from("hi"),
            String::new(),
            String::new(),
            NOON,
        ),
        refused(ErrorKind::InvalidArgument, 1)
    );
    assert_eq!(accounts, before);
    assert_eq!(
        Processor::create_profile_at(
            &program(),
            &mut accounts,
            Some((key(78), 254)),
            String::from("alice"),
            String::from("hi"),
            String::new(),
            String::new(),
            NOON,
        ),
        refused(ErrorKind::InvalidArgument, 1)
    );
    assert_eq!(accounts, before);
}

#[test]
fn the_address_of_a_profile_is_derived_from_its_seeds() {
    for (user, name) in [(key(1), "alice"), (key(2), "alice"), (key(1), ""), (key(3), "grüße")] {
        let ours = Processor::profile_address(&program(), &user, &String::from(name));
        assert_eq!(ours, Some(profile_address(&user, name)));
        assert_eq!(ours, Processor::profile_address(&program(), &user, &String::from(name)));
    }
    let (a, _) = profile_address(&key(1), "alice");
    let (b, _) = profile_address(&key(2), "alice");
    assert_ne!(a, b);
    // A seed of more than 32 bytes derives no address.
    assert_eq!(Processor::profile_address(&program(), &key(1), &"n".repeat(33)), None);
    assert!(Processor::profile_address(&program(), &key(1), &"n".repeat(32)).is_some());
}

#[test]
fn seeds_of_a_profile() {
    let user = key(1);
    assert_eq!(
        Processor::seeds_of_profile(&user, &String::from("é")),
        vec![user.to_vec(), b"profile".to_vec(), vec![0xc3, 0xa9]]
    );
    assert_eq!(
        Processor::seeds_of_signer(&user, &String::from("al"), 9),
        vec![user.to_vec(), b"profile".to_vec(), b"al".to_vec(), vec![9]]
    );
}

// ---------------------------------------------------------------------
// UpdateProfile
// ---------------------------------------------------------------------

fn update(bio: &str) -> ContractInstruction {
    ContractInstruction::UpdateProfile {
        bio: String::from(bio),
        profile_image: String::from("new.png"),
        cover_image: String::from("cover.png"),
    }
}

#[test]
fn update_profile_replaces_bio_and_images_only() {
    let alice = wallet(1);
    let mut old = profile_of(alice.key);
    old.followers_count = 5;
    old.posts_count = 6;
    old.user_credit_rating = -2;
    let mut accounts = vec![alice, holding_profile(key(10), &old)];
    assert_eq!(run(&mut accounts, update("new bio"), NOON), Ok(Vec::new()));
    let mut expected = old.clone();
    expected.bio = String::from("new bio");
    expected.profile_image = String::from("new.png");
    expected.cover_image = String::from("cover.png");
    assert_eq!(profile_in(&accounts[1]), expected);
}

#[test]
fn update_profile_twice_leaves_the_same_bytes() {
    let alice = wallet(1);
    let mut old = profile_of(alice.key);
    old.bio = "a long bio that leaves bytes behind the shorter one".repeat(2);
    let mut accounts = vec![alice, holding_profile(key(10), &old)];
    run(&mut accounts, update("short"), NOON).unwrap();
    let once = accounts.clone();
    run(&mut accounts, update("short"), NOON + 5).unwrap();
    assert_eq!(accounts, once);
}

#[test]
fn update_profile_does_not_cap_its_texts() {
    let alice = wallet(1);
    let mut accounts = vec![alice.clone(), holding_profile(key(10), &profile_of(alice.key))];
    let long = "b".repeat(300);
    run(&mut accounts, update(&long), NOON).unwrap();
    assert_eq!(profile_in(&accounts[1]).bio, long);
    let accounts = vec![alice.clone(), holding_profile(key(10), &profile_of(alice.key))];
    run_refused(&accounts, update(&"b".repeat(600)), ErrorKind::CapacityExceeded, 1);
}

#[test]
fn update_profile_refusals() {
    let alice = wallet(1);
    let stored = holding_profile(key(10), &profile_of(alice.key));
    run_refused(&vec![alice.clone()], update("x"), ErrorKind::NotEnoughAccountKeys, 1);
    let mut unsigned = alice.clone();
    unsigned.is_signer = false;
    run_refused(&vec![unsigned, stored.clone()], update("x"), ErrorKind::MissingRequiredSignature, 0);
    let mut foreign = stored.clone();
    foreign.owner = key(99);
    run_refused(&vec![alice.clone(), foreign], update("x"), ErrorKind::NotFound, 1);
    run_refused(&vec![alice.clone(), fresh(key(10))], update("x"), ErrorKind::NotFound, 1);
    run_refused(&vec![alice.clone(), owned(key(10), 50)], update("x"), ErrorKind::MalformedRecord, 1);
    run_refused(&vec![wallet(2), stored.clone()], update("x"), ErrorKind::PermissionDenied, 1);
    // A buffer of zeros holds the profile of the address of zeros.
    run_refused(&vec![alice.clone(), owned(key(10), 512)], update("x"), ErrorKind::PermissionDenied, 1);
}

// ---------------------------------------------------------------------
// CreatePost
// ---------------------------------------------------------------------

#[test]
fn create_post_counts_for_the_day() {
    let alice = wallet(1);
    let mut profile = profile_of(alice.key);
    profile.posts_count = 9;
    profile.daily_post_count = 3;
    profile.last_post_timestamp = NOON as u64;
    let stored = holding_profile(key(10), &profile);

    // Exactly a day later the day has not passed yet.
    let mut accounts = vec![alice.clone(), fresh(key(11)), stored.clone(), system()];
    run(&mut accounts, create_post("one"), NOON + 86400).unwrap();
    let after = profile_in(&accounts[2]);
    assert_eq!(after.posts_count, 10);
    assert_eq!(after.daily_post_count, 4);
    assert_eq!(after.last_post_timestamp, (NOON + 86400) as u64);
    assert_eq!(post_in(&accounts[1]).id, 10);

    // One second more and the daily count starts again.
    let mut accounts = vec![alice.clone(), fresh(key(11)), stored.clone(), system()];
    run(&mut accounts, create_post("one"), NOON + 86401).unwrap();
    let after = profile_in(&accounts[2]);
    assert_eq!(after.posts_count, 10);
    assert_eq!(after.daily_post_count, 1);

    // A clock that went backwards has passed no day.
    let mut accounts = vec![alice.clone(), fresh(key(11)), stored.clone(), system()];
    run(&mut accounts, create_post("one"), NOON - 100_000).unwrap();
    let after = profile_in(&accounts[2]);
    assert_eq!(after.daily_post_count, 4);
    assert_eq!(after.last_post_timestamp, (NOON - 100_000) as u64);
}

#[test]
fn create_post_keeps_content_and_images() {
    let alice = wallet(1);
    let stored = holding_profile(key(10), &profile_of(alice.key));
    let mut accounts = vec![alice.clone(), owned(key(11), 2048), stored, system()];
    let command = ContractInstruction::CreatePost {
        content: "c".repeat(500),
        images: vec![String::from("a.png"), String::from("b.png")],
    };
    assert_eq!(run(&mut accounts, command, NOON), Ok(Vec::new()));
    let post = post_in(&accounts[1]);
    assert_eq!(
        post,
        Post {
            is_initialized: true,
            id: 1,
            author: alice.key,
            content: "c".repeat(500),
            timestamp: NOON as u64,
            likes: 0,
            comments: 0,
            mirrors: 0,
            images: vec![String::from("a.png"), String::from("b.png")],
            rating: PostRating::Unrated,
            in_kill_zone: false,
        }
    );
}

#[test]
fn create_post_refusals() {
    let alice = wallet(1);
    let stored = holding_profile(key(10), &profile_of(alice.key));
    let post = create_post("hello");
    run_refused(
        &vec![alice.clone(), fresh(key(11)), stored.clone()],
        post.clone(),
        ErrorKind::NotEnoughAccountKeys,
        3,
    );
    let mut unsigned = alice.clone();
    unsigned.is_signer = false;
    run_refused(
        &vec![unsigned, fresh(key(11)), stored.clone(), system()],
        post.clone(),
        ErrorKind::MissingRequiredSignature,
        0,
    );
    run_refused(
        &vec![alice.clone(), fresh(key(11)), fresh(key(10)), system()],
        post.clone(),
        ErrorKind::NotFound,
        2,
    );
    run_refused(
        &vec![alice.clone(), fresh(key(11)), owned(key(10), 10), system()],
        post.clone(),
        ErrorKind::MalformedRecord,
        2,
    );
    run_refused(
        &vec![wallet(2), fresh(key(11)), stored.clone(), system()],
        post.clone(),
        ErrorKind::PermissionDenied,
        2,
    );
    // The post does not fit its account.
    run_refused(
        &vec![alice.clone(), fresh(key(11)), stored.clone(), system()],
        create_post(&"c".repeat(2048)),
        ErrorKind::CapacityExceeded,
        1,
    );
    run_refused(
        &vec![alice.clone(), owned(key(11), 60), stored.clone(), system()],
        post.clone(),
        ErrorKind::CapacityExceeded,
        1,
    );
}

#[test]
fn create_post_needs_post_and_profile_in_two_accounts() {
    let alice = wallet(1);
    let stored = holding_profile(key(10), &profile_of(alice.key));
    run_refused(
        &vec![alice.clone(), stored.clone(), stored.clone(), system()],
        create_post("hello"),
        ErrorKind::InvalidArgument,
        2,
    );
    run_refused(
        &vec![alice.clone(), fresh(key(10)), stored, system()],
        create_post("hello"),
        ErrorKind::InvalidArgument,
        2,
    );
}

#[test]
fn create_post_at_the_last_count_is_refused() {
    let alice = wallet(1);
    let mut profile = profile_of(alice.key);
    profile.posts_count = u64::MAX;
    let accounts = vec![alice.clone(), fresh(key(11)), holding_profile(key(10), &profile), system()];
    run_refused(&accounts, create_post("x"), ErrorKind::ArithmeticOverflow, 2);
    let mut profile = profile_of(alice.key);
    profile.daily_post_count = u64::MAX;
    profile.last_post_timestamp = NOON as u64;
    let stored = holding_profile(key(10), &profile);
    let accounts = vec![alice.clone(), fresh(key(11)), stored.clone(), system()];
    run_refused(&accounts, create_post("x"), ErrorKind::ArithmeticOverflow, 2);
    // On a new day the daily count starts again and the post goes through.
    let mut accounts = vec![alice.clone(), fresh(key(11)), stored, system()];
    let data = create_post("x").pack().unwrap();
    Processor::process(&program(), &mut accounts, &data, NOON + 90_000).unwrap();
    assert_eq!(profile_in(&accounts[2]).daily_post_count, 1);
}

// ---------------------------------------------------------------------
// LikePost
// ---------------------------------------------------------------------

fn like(post_id: u64) -> ContractInstruction {
    ContractInstruction::LikePost { post_id }
}

#[test]
fn like_post_rates_the_post_and_credits_the_author() {
    let author = key(1);
    let mut post = post_of(author, 3);
    post.likes = 18;
    post.rating = PostRating::Bronze;
    post.in_kill_zone = true;
    let mut profile = profile_of(author);
    profile.user_credit_rating = -5;
    let mut accounts =
        vec![wallet(2), holding_post(key(11), &post), holding_profile(key(10), &profile)];
    run(&mut accounts, like(3), NOON).unwrap();
    let liked = post_in(&accounts[1]);
    assert_eq!(liked.likes, 19);
    assert_eq!(liked.rating, PostRating::Bronze);
    assert!(!liked.in_kill_zone);
    assert_eq!(profile_in(&accounts[2]).user_credit_rating, -4);
    run(&mut accounts, like(3), NOON).unwrap();
    let liked = post_in(&accounts[1]);
    assert_eq!(liked.likes, 20);
    assert_eq!(liked.rating, PostRating::Silver);
    assert_eq!(profile_in(&accounts[2]).user_credit_rating, -3);
    let mut expected = post.clone();
    expected.likes = 20;
    expected.rating = PostRating::Silver;
    expected.in_kill_zone = false;
    assert_eq!(liked, expected);
}

#[test]
fn like_post_refusals() {
    let author = key(1);
    let post = holding_post(key(11), &post_of(author, 3));
    let profile = holding_profile(key(10), &profile_of(author));
    run_refused(&vec![wallet(2), post.clone()], like(3), ErrorKind::NotEnoughAccountKeys, 2);
    let mut unsigned = wallet(2);
    unsigned.is_signer = false;
    run_refused(
        &vec![unsigned, post.clone(), profile.clone()],
        like(3),
        ErrorKind::MissingRequiredSignature,
        0,
    );
    run_refused(&vec![wallet(2), fresh(key(11)), profile.clone()], like(3), ErrorKind::NotFound, 1);
    run_refused(&vec![wallet(2), post.clone(), fresh(key(10))], like(3), ErrorKind::NotFound, 2);
    run_refused(
        &vec![wallet(2), owned(key(11), 20), profile.clone()],
        like(3),
        ErrorKind::MalformedRecord,
        1,
    );
    run_refused(
        &vec![wallet(2), post.clone(), profile.clone()],
        like(4),
        ErrorKind::InvalidArgument,
        1,
    );
    run_refused(
        &vec![wallet(2), post.clone(), owned(key(10), 20)],
        like(3),
        ErrorKind::MalformedRecord,
        2,
    );
    // A wrong id is told before the profile is read.
    run_refused(
        &vec![wallet(2), post.clone(), owned(key(10), 20)],
        like(4),
        ErrorKind::InvalidArgument,
        1,
    );
    let stranger = holding_profile(key(10), &profile_of(key(5)));
    run_refused(&vec![wallet(2), post.clone(), stranger], like(3), ErrorKind::InvalidArgument, 2);
}

#[test]
fn like_post_needs_post_and_profile_in_two_accounts() {
    let author = key(1);
    let post = holding_post(key(11), &post_of(author, 3));
    let mut profile = holding_profile(key(10), &profile_of(author));
    profile.key = key(11);
    run_refused(&vec![wallet(2), post.clone(), profile], like(3), ErrorKind::InvalidArgument, 2);
    run_refused(&vec![wallet(2), post.clone(), post], like(3), ErrorKind::InvalidArgument, 2);
}

#[test]
fn like_post_at_the_last_count_is_refused() {
    let author = key(1);
    let mut post = post_of(author, 3);
    post.likes = u64::MAX;
    let accounts = vec![
        wallet(2),
        holding_post(key(11), &post),
        holding_profile(key(10), &profile_of(author)),
    ];
    run_refused(&accounts, like(3), ErrorKind::ArithmeticOverflow, 1);
    let mut profile = profile_of(author);
    profile.user_credit_rating = i64::MAX;
    let accounts = vec![
        wallet(2),
        holding_post(key(11), &post_of(author, 3)),
        holding_profile(key(10), &profile),
    ];
    run_refused(&accounts, like(3), ErrorKind::ArithmeticOverflow, 2);
}

// ---------------------------------------------------------------------
// CommentOnPost
// ---------------------------------------------------------------------

fn comment(content: &str, parent_id: u64) -> ContractInstruction {
    ContractInstruction::CommentOnPost { content: String::from(content), parent_id }
}

#[test]
fn comment_is_a_post_of_the_commenter() {
    let alice = wallet(1);
    let mut parent = post_of(key(5), 7);
    parent.comments = 2;
    let mut profile = profile_of(alice.key);
    profile.posts_count = 4;
    profile.daily_post_count = 1;
    let mut accounts = vec![
        alice.clone(),
        fresh(key(12)),
        holding_post(key(11), &parent),
        holding_profile(key(10), &profile),
        system(),
    ];
    let steps = run(&mut accounts, comment("nice", 7), NOON).unwrap();
    assert_eq!(
        steps,
        vec![ProvisionStep::Create { from: alice.key, to: key(12), space: 1024, owner: program() }]
    );
    assert_eq!(accounts[1].owner, program());
    assert_eq!(accounts[1].data.len(), 1024);
    assert_eq!(
        post_in(&accounts[1]),
        Post {
            is_initialized: true,
            id: 5,
            author: alice.key,
            content: String::from("nice"),
            timestamp: NOON as u64,
            likes: 0,
            comments: 0,
            mirrors: 0,
            images: Vec::new(),
            rating: PostRating::Unrated,
            in_kill_zone: false,
        }
    );
    let mut expected = parent.clone();
    expected.comments = 3;
    assert_eq!(post_in(&accounts[2]), expected);
    let after = profile_in(&accounts[3]);
    assert_eq!(after.posts_count, 5);
    assert_eq!(after.daily_post_count, 1);
    assert_eq!(after.last_post_timestamp, 0);
}

#[test]
fn comment_refusals() {
    let alice = wallet(1);
    let parent = holding_post(key(11), &post_of(key(5), 7));
    let profile = holding_profile(key(10), &profile_of(alice.key));
    let good =
        vec![alice.clone(), fresh(key(12)), parent.clone(), profile.clone(), system()];
    let with = |slot: usize, account: Account| {
        let mut accounts = good.clone();
        accounts[slot] = account;
        accounts
    };
    run_refused(&good[..4].to_vec(), comment("x", 7), ErrorKind::NotEnoughAccountKeys, 4);
    let mut unsigned = alice.clone();
    unsigned.is_signer = false;
    run_refused(&with(0, unsigned), comment("x", 7), ErrorKind::MissingRequiredSignature, 0);
    run_refused(&with(2, fresh(key(11))), comment("x", 7), ErrorKind::NotFound, 2);
    run_refused(&with(3, fresh(key(10))), comment("x", 7), ErrorKind::NotFound, 3);
    run_refused(&with(2, owned(key(11), 5)), comment("x", 7), ErrorKind::MalformedRecord, 2);
    run_refused(&good, comment("x", 8), ErrorKind::InvalidArgument, 2);
    run_refused(&with(3, owned(key(10), 5)), comment("x", 7), ErrorKind::MalformedRecord, 3);
    run_refused(&with(0, wallet(2)), comment("x", 7), ErrorKind::PermissionDenied, 3);
    // The three accounts that are written lie at three addresses.
    let mut twin = parent.clone();
    twin.key = key(12);
    run_refused(&with(2, twin), comment("x", 7), ErrorKind::InvalidArgument, 2);
    let mut twin = profile.clone();
    twin.key = key(12);
    run_refused(&with(3, twin), comment("x", 7), ErrorKind::InvalidArgument, 3);
    let mut twin = profile.clone();
    twin.key = key(11);
    run_refused(&with(3, twin), comment("x", 7), ErrorKind::InvalidArgument, 3);
    run_refused(&good, comment(&"c".repeat(1024), 7), ErrorKind::CapacityExceeded, 1);
    let mut full = profile_of(alice.key);
    full.posts_count = u64::MAX;
    run_refused(
        &with(3, holding_profile(key(10), &full)),
        comment("x", 7),
        ErrorKind::ArithmeticOverflow,
        3,
    );
    let mut crowded = post_of(key(5), 7);
    crowded.comments = u64::MAX;
    run_refused(
        &with(2, holding_post(key(11), &crowded)),
        comment("x", 7),
        ErrorKind::ArithmeticOverflow,
        2,
    );
}

// ---------------------------------------------------------------------
// FollowProfile and UnfollowProfile
// ---------------------------------------------------------------------

fn follow(profile_id: Pubkey) -> ContractInstruction {
    ContractInstruction::FollowProfile { profile_id }
}

fn unfollow(profile_id: Pubkey) -> ContractInstruction {
    ContractInstruction::UnfollowProfile { profile_id }
}

#[test]
fn follow_then_unfollow_restores_both_counters() {
    let alice = wallet(1);
    let mut followed = profile_of(key(5));
    followed.followers_count = 41;
    followed.following_count = 3;
    let mut follower = profile_of(alice.key);
    follower.followers_count = 8;
    follower.following_count = 17;
    let before = vec![
        alice.clone(),
        holding_profile(key(20), &followed),
        holding_profile(key(10), &follower),
    ];
    let mut accounts = before.clone();
    assert_eq!(run(&mut accounts, follow(key(20)), NOON), Ok(Vec::new()));
    let mut expected = followed.clone();
    expected.followers_count = 42;
    assert_eq!(profile_in(&accounts[1]), expected);
    let mut expected = follower.clone();
    expected.following_count = 18;
    assert_eq!(profile_in(&accounts[2]), expected);
    assert_eq!(run(&mut accounts, unfollow(key(20)), NOON), Ok(Vec::new()));
    assert_eq!(profile_in(&accounts[1]), followed);
    assert_eq!(profile_in(&accounts[2]), follower);
    assert_eq!(accounts, before);
}

#[test]
fn unfollow_at_zero_stays_at_zero() {
    let alice = wallet(1);
    let followed = profile_of(key(5));
    let mut follower = profile_of(alice.key);
    follower.following_count = 1;
    let mut accounts = vec![
        alice.clone(),
        holding_profile(key(20), &followed),
        holding_profile(key(10), &follower),
    ];
    assert_eq!(run(&mut accounts, unfollow(key(20)), NOON), Ok(Vec::new()));
    assert_eq!(profile_in(&accounts[1]).followers_count, 0);
    assert_eq!(profile_in(&accounts[2]).following_count, 0);
    assert_eq!(run(&mut accounts, unfollow(key(20)), NOON), Ok(Vec::new()));
    assert_eq!(profile_in(&accounts[1]).followers_count, 0);
    assert_eq!(profile_in(&accounts[2]).following_count, 0);
}

#[test]
fn nobody_follows_their_own_profile() {
    let alice = wallet(1);
    let mut own = profile_of(alice.key);
    own.followers_count = 4;
    own.following_count = 9;
    let account = holding_profile(key(10), &own);
    let accounts = vec![alice.clone(), account.clone(), account.clone()];
    run_refused(&accounts, follow(key(10)), ErrorKind::InvalidArgument, 2);
    run_refused(&accounts, unfollow(key(10)), ErrorKind::InvalidArgument, 2);
    // Two images of one account that differ are refused as well.
    let mut other = profile_of(alice.key);
    other.bio = String::from("another image");
    let accounts = vec![alice.clone(), account, holding_profile(key(10), &other)];
    run_refused(&accounts, follow(key(10)), ErrorKind::InvalidArgument, 2);
}

#[test]
fn follow_and_unfollow_refusals() {
    let alice = wallet(1);
    let followed = holding_profile(key(20), &profile_of(key(5)));
    let follower = holding_profile(key(10), &profile_of(alice.key));
    let good = vec![alice.clone(), followed.clone(), follower.clone()];
    let with = |slot: usize, account: Account| {
        let mut accounts = good.clone();
        accounts[slot] = account;
        accounts
    };
    for command in [follow, unfollow] {
        run_refused(&good[..2].to_vec(), command(key(20)), ErrorKind::NotEnoughAccountKeys, 2);
        let mut unsigned = alice.clone();
        unsigned.is_signer = false;
        run_refused(&with(0, unsigned), command(key(20)), ErrorKind::MissingRequiredSignature, 0);
        run_refused(&with(1, fresh(key(20))), command(key(20)), ErrorKind::NotFound, 1);
        run_refused(&with(2, fresh(key(10))), command(key(20)), ErrorKind::NotFound, 2);
        run_refused(&good, command(key(21)), ErrorKind::InvalidArgument, 1);
        run_refused(&with(1, owned(key(20), 9)), command(key(20)), ErrorKind::MalformedRecord, 1);
        run_refused(&with(2, owned(key(10), 9)), command(key(20)), ErrorKind::MalformedRecord, 2);
        run_refused(&with(0, wallet(2)), command(key(20)), ErrorKind::PermissionDenied, 2);
    }
    let mut famous = profile_of(key(5));
    famous.followers_count = u64::MAX;
    run_refused(
        &with(1, holding_profile(key(20), &famous)),
        follow(key(20)),
        ErrorKind::ArithmeticOverflow,
        1,
    );
    let mut busy = profile_of(alice.key);
    busy.following_count = u64::MAX;
    run_refused(
        &with(2, holding_profile(key(10), &busy)),
        follow(key(20)),
        ErrorKind::ArithmeticOverflow,
        2,
    );
}

// ---------------------------------------------------------------------
// CreateCommunity and JoinCommunity
// ---------------------------------------------------------------------

fn create_community(name: &str) -> ContractInstruction {
    ContractInstruction::CreateCommunity {
        name: String::from(name),
        description: String::from("about"),
        avatar: String::from("a.png"),
        rules: vec![String::from("be kind")],
    }
}

#[test]
fn create_community_starts_with_its_owner_as_member() {
    let alice = wallet(1);
    let mut accounts = vec![alice.clone(), fresh(key(30)), system()];
    let steps = run(&mut accounts, create_community("sb/rust"), NOON).unwrap();
    assert_eq!(
        steps,
        vec![ProvisionStep::Create { from: alice.key, to: key(30), space: 2048, owner: program() }]
    );
    assert_eq!(accounts[1].data.len(), 2048);
    assert_eq!(
        community_in(&accounts[1]),
        Community {
            is_initialized: true,
            id: 0,
            name: String::from("sb/rust"),
            description: String::from("about"),
            avatar: String::from("a.png"),
            owner: alice.key,
            member_count: 1,
            rules: vec![String::from("be kind")],
            is_sb_community: true,
        }
    );
    let mut accounts = vec![alice.clone(), owned(key(30), 2048), fresh(key(31))];
    assert_eq!(run(&mut accounts, create_community("rust"), NOON), Ok(Vec::new()));
    assert!(!community_in(&accounts[1]).is_sb_community);
}

#[test]
fn create_community_refusals() {
    let alice = wallet(1);
    run_refused(
        &vec![alice.clone(), fresh(key(30))],
        create_community("x"),
        ErrorKind::NotEnoughAccountKeys,
        2,
    );
    let mut unsigned = alice.clone();
    unsigned.is_signer = false;
    run_refused(
        &vec![unsigned, fresh(key(30)), system()],
        create_community("x"),
        ErrorKind::MissingRequiredSignature,
        0,
    );
    run_refused(
        &vec![alice.clone(), fresh(key(30)), system()],
        create_community(&"n".repeat(2048)),
        ErrorKind::CapacityExceeded,
        1,
    );
    run_refused(
        &vec![alice.clone(), owned(key(30), 70), system()],
        create_community("x"),
        ErrorKind::CapacityExceeded,
        1,
    );
}

fn community_account(id: u64) -> Account {
    let community = Community {
        is_initialized: true,
        id,
        name: String::from("rust"),
        description: String::new(),
        avatar: String::new(),
        owner: key(1),
        member_count: 1,
        rules: Vec::new(),
        is_sb_community: false,
    };
    let mut account = owned(key(30), 2048);
    pack_community_into_slice(&community, &mut account.data).unwrap();
    account
}

#[test]
fn join_community_counts_a_member() {
    let mut accounts = vec![wallet(2), community_account(7)];
    assert_eq!(Processor::process_join_community(&program(), &mut accounts, 7), Ok(Vec::new()));
    assert_eq!(community_in(&accounts[1]).member_count, 2);
    assert_eq!(Processor::process_join_community(&program(), &mut accounts, 7), Ok(Vec::new()));
    let joined = community_in(&accounts[1]);
    assert_eq!(joined.member_count, 3);
    assert_eq!(joined.id, 7);
    assert_eq!(joined.name, "rust");
    assert_eq!(joined.owner, key(1));
}

#[test]
fn join_community_refusals() {
    let good = vec![wallet(2), community_account(7)];
    let join = |accounts: &Vec<Account>, id: u64| {
        let mut after = accounts.clone();
        let r = Processor::process_join_community(&program(), &mut after, id);
        assert_eq!(&after, accounts);
        r
    };
    assert_eq!(join(&vec![], 7), refused(ErrorKind::NotEnoughAccountKeys, 0));
    assert_eq!(join(&vec![wallet(2)], 7), refused(ErrorKind::NotEnoughAccountKeys, 1));
    let mut unsigned = wallet(2);
    unsigned.is_signer = false;
    assert_eq!(
        join(&vec![unsigned, community_account(7)], 7),
        refused(ErrorKind::MissingRequiredSignature, 0)
    );
    assert_eq!(join(&vec![wallet(2), fresh(key(30))], 7), refused(ErrorKind::NotFound, 1));
    assert_eq!(
        join(&vec![wallet(2), owned(key(30), 4)], 7),
        refused(ErrorKind::MalformedRecord, 1)
    );
    assert_eq!(join(&good, 8), refused(ErrorKind::InvalidArgument, 1));
    assert_eq!(join(&good, 0), refused(ErrorKind::InvalidArgument, 1));
    let mut full = community_in(&community_account(7));
    full.member_count = u64::MAX;
    let mut account = owned(key(30), 2048);
    pack_community_into_slice(&full, &mut account.data).unwrap();
    assert_eq!(join(&vec![wallet(2), account], 7), refused(ErrorKind::ArithmeticOverflow, 1));
}

#[test]
fn join_community_by_command_joins_the_community_named() {
    let join = |id: u64| ContractInstruction::JoinCommunity { community_id: id };
    run_refused(&vec![], join(7), ErrorKind::NotEnoughAccountKeys, 0);
    run_refused(&vec![wallet(2)], join(7), ErrorKind::NotEnoughAccountKeys, 1);
    run_refused(&vec![wallet(2), community_account(7)], join(30), ErrorKind::InvalidArgument, 1);
    let mut accounts = vec![wallet(2), community_account(7)];
    assert_eq!(run(&mut accounts, join(7), NOON), Ok(Vec::new()));
    assert_eq!(community_in(&accounts[1]).member_count, 2);
    // A community as `CreateCommunity` leaves it has the id 0.
    let mut accounts = vec![wallet(1), fresh(key(30)), system()];
    run(&mut accounts, create_community("rust"), NOON).unwrap();
    let mut accounts = vec![wallet(2), accounts[1].clone()];
    assert_eq!(run(&mut accounts, join(0), NOON), Ok(Vec::new()));
    assert_eq!(community_in(&accounts[1]).member_count, 2);
    run_refused(&accounts, join(1), ErrorKind::InvalidArgument, 1);
}

// ---------------------------------------------------------------------
// Commands as bytes
// ---------------------------------------------------------------------

#[test]
fn bytes_that_are_no_command_are_refused() {
    let before = vec![wallet(1), owned(key(10), 512)];
    for data in [&[][..], &[9][..], &[3, 1, 2][..], &[3, 0, 0, 0, 0, 0, 0, 0, 0, 0][..]] {
        let mut accounts = before.clone();
        assert_eq!(
            Processor::process(&program(), &mut accounts, data, NOON),
            Err(ProcessError { kind: ErrorKind::InvalidCommand, slot: None })
        );
        assert_eq!(accounts, before);
    }
}

#[test]
fn commands_called_directly_do_what_the_bytes_do() {
    let alice = wallet(1);
    let stored = holding_profile(key(10), &profile_of(alice.key));
    let before = vec![alice.clone(), fresh(key(11)), stored, system()];
    let mut by_bytes = before.clone();
    let steps_by_bytes = run(&mut by_bytes, create_post("hello"), NOON);
    let mut direct = before.clone();
    let steps_direct = Processor::process_create_post(
        &program(),
        &mut direct,
        String::from("hello"),
        Vec::new(),
        NOON,
    );
    assert_eq!(steps_by_bytes, steps_direct);
    assert_eq!(by_bytes, direct);

    let (address, _) = profile_address(&alice.key, "alice");
    let before = vec![alice.clone(), fresh(address), system()];
    let mut by_bytes = before.clone();
    let steps_by_bytes = run(&mut by_bytes, create_profile("alice", "hi"), NOON);
    let mut direct = before.clone();
    let steps_direct = Processor::process_create_profile(
        &program(),
        &mut direct,
        String::from("alice"),
        String::from("hi"),
        String::new(),
        String::new(),
        NOON,
    );
    assert!(steps_direct.is_ok());
    assert_eq!(steps_by_bytes, steps_direct);
    assert_eq!(by_bytes, direct);

    let mut accounts = vec![alice.clone(), by_bytes[1].clone()];
    assert_eq!(
        Processor::process_update_profile(
            &program(),
            &mut accounts,
            String::from("bio"),
            String::from("p"),
            String::from("c"),
        ),
        Ok(Vec::new())
    );
    assert_eq!(profile_in(&accounts[1]).bio, "bio");
    let mut accounts = vec![
        wallet(2),
        holding_post(key(11), &post_of(alice.key, 1)),
        holding_profile(key(10), &profile_of(alice.key)),
    ];
    assert_eq!(Processor::process_like_post(&program(), &mut accounts, 1), Ok(Vec::new()));
    assert_eq!(post_in(&accounts[1]).likes, 1);
    let mut accounts = vec![
        alice.clone(),
        holding_profile(key(20), &profile_of(key(5))),
        holding_profile(key(10), &profile_of(alice.key)),
    ];
    assert_eq!(Processor::process_follow(&program(), &mut accounts, key(20)), Ok(Vec::new()));
    assert_eq!(profile_in(&accounts[1]).followers_count, 1);
    assert_eq!(Processor::process_unfollow(&program(), &mut accounts, key(20)), Ok(Vec::new()));
    assert_eq!(profile_in(&accounts[1]).followers_count, 0);
    let mut accounts = vec![
        alice.clone(),
        fresh(key(12)),
        holding_post(key(11), &post_of(key(5), 7)),
        holding_profile(key(10), &profile_of(alice.key)),
        system(),
    ];
    assert!(Processor::process_comment(
        &program(),
        &mut accounts,
        String::from("nice"),
        7,
        NOON
    )
    .is_ok());
    assert_eq!(post_in(&accounts[2]).comments, 1);
    let mut accounts = vec![alice.clone(), fresh(key(30)), system()];
    assert!(Processor::process_create_community(
        &program(),
        &mut accounts,
        String::from("sb/x"),
        String::new(),
        String::new(),
        Vec::new(),
    )
    .is_ok());
    assert!(community_in(&accounts[1]).is_sb_community);
}
