use blocks_contract::state::PostRating;

#[test]
fn tier_at_every_boundary() {
    assert_eq!(PostRating::from_likes(0), PostRating::Unrated);
    assert_eq!(PostRating::from_likes(4), PostRating::Unrated);
    assert_eq!(PostRating::from_likes(5), PostRating::Bronze);
    assert_eq!(PostRating::from_likes(19), PostRating::Bronze);
    assert_eq!(PostRating::from_likes(20), PostRating::Silver);
    assert_eq!(PostRating::from_likes(49), PostRating::Silver);
    assert_eq!(PostRating::from_likes(50), PostRating::Gold);
    assert_eq!(PostRating::from_likes(149), PostRating::Gold);
    assert_eq!(PostRating::from_likes(150), PostRating::Platinum);
    assert_eq!(PostRating::from_likes(499), PostRating::Platinum);
    assert_eq!(PostRating::from_likes(500), PostRating::Diamond);
    assert_eq!(PostRating::from_likes(999), PostRating::Diamond);
    assert_eq!(PostRating::from_likes(1000), PostRating::Ace);
    assert_eq!(PostRating::from_likes(999_999), PostRating::Ace);
    assert_eq!(PostRating::from_likes(1_000_000), PostRating::Conqueror);
    assert_eq!(PostRating::from_likes(u64::MAX), PostRating::Conqueror);
}
