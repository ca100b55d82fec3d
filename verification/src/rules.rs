//! The rules of the domain that commands apply: the cap on the texts of a
//! new profile, the day after which the daily post count starts again, and
//! the prefix that marks a community as one of the `sb/` kind.

use vstd::prelude::*;
use vstd::string::*;
use vstd::utf8::*;

verus! {

/// The most bytes that a text of a new profile keeps.
pub const MAX_TEXT_BYTES: usize = 128;

/// The length of the window of the daily post count, in seconds.
pub const SECONDS_IN_DAY: u64 = 86400;

/// The capacity of the account of a profile, in bytes.
pub const PROFILE_SPACE: usize = 512;

/// The capacity of the account of a post, in bytes.
pub const POST_SPACE: usize = 2048;

/// The capacity of the account of a comment, in bytes.
pub const COMMENT_SPACE: usize = 1024;

/// The capacity of the account of a community, in bytes.
pub const COMMUNITY_SPACE: usize = 2048;

/// The credit rating of a new profile.
pub const INITIAL_CREDIT_RATING: i64 = 100;

/// The greatest length, `cap` at most, at which the UTF-8 text `bytes` may
/// be cut without parting the bytes of one character.
pub open spec fn cut_at(bytes: Seq<u8>, cap: int) -> int
    decreases cap,
{
    if bytes.len() <= cap {
        bytes.len() as int
    } else if cap <= 0 {
        0
    } else if is_char_boundary(bytes, cap) {
        cap
    } else {
        cut_at(bytes, cap - 1)
    }
}

/// The text cut to `cap` bytes of UTF-8 at most: its longest beginning
/// that is no longer.
pub open spec fn capped(text: Seq<char>, cap: int) -> Seq<char> {
    let bytes = encode_utf8(text);
    decode_utf8(bytes.subrange(0, cut_at(bytes, cap)))
}

/// A cut lies inside the text and within the cap.
pub proof fn lemma_cut_at_bounds(bytes: Seq<u8>, cap: int)
    requires
        0 <= cap,
    ensures
        0 <= cut_at(bytes, cap) <= cap,
        cut_at(bytes, cap) <= bytes.len(),
    decreases cap,
{
    if bytes.len() > cap && cap > 0 && !is_char_boundary(bytes, cap) {
        lemma_cut_at_bounds(bytes, cap - 1);
    }
}

/// A capped text has `cap` bytes at most, and a text within the cap is
/// kept whole.
pub proof fn lemma_capped(text: Seq<char>, cap: int)
    requires
        0 <= cap,
    ensures
        encode_utf8(capped(text, cap)).len() <= cap,
        encode_utf8(text).len() <= cap ==> capped(text, cap) == text,
        encode_utf8(capped(text, cap)) == encode_utf8(text).subrange(
            0,
            cut_at(encode_utf8(text), cap),
        ),
{
    let bytes = encode_utf8(text);
    let k = cut_at(bytes, cap);
    lemma_cut_at_bounds(bytes, cap);
    encode_utf8_valid_utf8(text);
    lemma_cut_at_boundary(bytes, cap);
    valid_utf8_split(bytes, k);
    decode_utf8_encode_utf8(bytes.subrange(0, k));
    if bytes.len() <= cap {
        assert(bytes.subrange(0, k) =~= bytes);
        encode_utf8_decode_utf8(text);
    }
}

/// A cut never parts a character.
pub proof fn lemma_cut_at_boundary(bytes: Seq<u8>, cap: int)
    requires
        0 <= cap,
        valid_utf8(bytes),
    ensures
        is_char_boundary(bytes, cut_at(bytes, cap)),
    decreases cap,
{
    is_char_boundary_start_end_of_seq(bytes);
    if bytes.len() > cap && cap > 0 && !is_char_boundary(bytes, cap) {
        lemma_cut_at_boundary(bytes, cap - 1);
    }
}

/// The cut is the greatest place, `cap` at most, at which the text may be
/// cut between two characters: it is such a place, and no place behind it
/// up to `cap` is one.
pub proof fn lemma_cut_at_greatest(bytes: Seq<u8>, cap: int)
    requires
        0 <= cap,
        valid_utf8(bytes),
    ensures
        0 <= cut_at(bytes, cap) <= cap,
        cut_at(bytes, cap) <= bytes.len(),
        is_char_boundary(bytes, cut_at(bytes, cap)),
        forall|k: int| cut_at(bytes, cap) < k <= cap ==> !is_char_boundary(bytes, k),
    decreases cap,
{
    lemma_cut_at_bounds(bytes, cap);
    lemma_cut_at_boundary(bytes, cap);
    if bytes.len() > cap && cap > 0 && !is_char_boundary(bytes, cap) {
        lemma_cut_at_greatest(bytes, cap - 1);
    }
}

/// A text of ASCII characters is cut after `cap` characters, or kept
/// whole where it has no more: a text of 200 such characters keeps its
/// first 128 under the cap of 128.
pub proof fn lemma_capped_ascii(text: Seq<char>, cap: int)
    requires
        0 <= cap,
        is_ascii_chars(text),
    ensures
        cut_at(encode_utf8(text), cap) == if text.len() <= cap {
            text.len() as int
        } else {
            cap
        },
        capped(text, cap) == text.take(cut_at(encode_utf8(text), cap)),
{
    let bytes = encode_utf8(text);
    is_ascii_chars_encode_utf8(text);
    is_ascii_chars_nat_bound(text);
    encode_utf8_valid_utf8(text);
    lemma_cut_at_bounds(bytes, cap);
    if bytes.len() > cap && cap > 0 {
        assert((text[cap] as nat) < 128);
        assert(!is_continuation_byte(bytes[cap]));
        is_char_boundary_iff_not_is_continuation_byte(bytes, cap);
    }
    let m = cut_at(bytes, cap);
    let kept = text.take(m);
    assert(is_ascii_chars(kept)) by {
        assert forall|i: int| 0 <= i < kept.len() implies '\0' <= #[trigger] kept[i]
            <= '\u{7f}' by {
            assert(kept[i] == text[i]);
        }
    }
    is_ascii_chars_encode_utf8(kept);
    assert(encode_utf8(kept) =~= bytes.subrange(0, m)) by {
        assert forall|i: int| 0 <= i < m implies encode_utf8(kept)[i] == bytes[i] by {
            assert(kept[i] == text[i]);
        }
    }
    encode_utf8_decode_utf8(kept);
}

/// Cuts the text to `cap` bytes at most, between two characters.
pub fn truncate(text: String, cap: usize) -> (r: String)
    ensures
        r@ == capped(text@, cap as int),
{
    let ghost bytes = encode_utf8(text@);
    proof {
        encode_utf8_valid_utf8(text@);
        is_char_boundary_start_end_of_seq(bytes);
    }
    let whole = text.as_str();
    if whole.as_bytes().len() <= cap {
        proof {
            assert(bytes.subrange(0, bytes.len() as int) =~= bytes);
            encode_utf8_decode_utf8(text@);
        }
        return text;
    }
    let mut k: usize = cap;
    while !whole.is_char_boundary(k)
        invariant
            k <= cap,
            k < bytes.len(),
            bytes == encode_utf8(text@),
            bytes == whole.spec_bytes(),
            valid_utf8(bytes),
            is_char_boundary(bytes, 0),
            cut_at(bytes, cap as int) == cut_at(bytes, k as int),
        decreases k,
    {
        k -= 1;
    }
    let (head, _) = whole.split_at(k);
    proof {
        encode_utf8_decode_utf8(head@);
    }
    head.to_owned()
}

/// Whether a community of this name is one of the `sb/` kind: the name
/// begins with `sb/`.
pub open spec fn is_sb_name(name: Seq<char>) -> bool {
    name.len() >= 3 && name[0] == 's' && name[1] == 'b' && name[2] == '/'
}

/// Whether the name begins with `sb/`.
pub fn has_sb_prefix(name: &String) -> (r: bool)
    ensures
        r == is_sb_name(name@),
{
    let s = name.as_str();
    s.unicode_len() >= 3 && s.get_char(0) == 's' && s.get_char(1) == 'b' && s.get_char(2) == '/'
}

/// Whether more than a day lies between the last post and now. A clock
/// that has gone backwards has passed no day.
pub open spec fn day_passed(last: u64, now: u64) -> bool {
    now - last > SECONDS_IN_DAY
}

/// Whether more than a day lies between the last post and now.
pub fn is_new_day(last: u64, now: u64) -> (r: bool)
    ensures
        r == day_passed(last, now),
{
    now > last && now - last > SECONDS_IN_DAY
}

} // verus!
