//! The few calls that leave this library: hexadecimal text, identifiers, lossy
//! text decoding, the clock, chance, and the filter of messages already seen.
//!
//! The contracts of the executable functions in this file are believed, not proved.
use bloomfilter::Bloom;
use rand::Rng;
use std::time::{Duration, SystemTime};
use uuid::Uuid;
use vstd::prelude::*;
use vstd::utf8::{decode_utf8, encode_utf8, valid_utf8};

verus! {

/// The lower-case hexadecimal digit that stands for `n`, for `n` below sixteen.
pub open spec fn hex_digit(n: int) -> char {
    if n < 10 {
        (48 + n) as char
    } else {
        (87 + n) as char
    }
}

/// The text that spells `bytes` with two lower-case hexadecimal digits for each
/// byte, the high half first.
pub open spec fn hex_text(bytes: Seq<u8>) -> Seq<char> {
    Seq::new(
        2 * bytes.len(),
        |i: int|
            if i % 2 == 0 {
                hex_digit(bytes[i / 2] as int / 16)
            } else {
                hex_digit(bytes[i / 2] as int % 16)
            },
    )
}

/// What the hexadecimal digit `c`, of either case, stands for.
pub open spec fn hex_value(c: char) -> Option<int> {
    if '0' <= c && c <= '9' {
        Some(c as int - 48)
    } else if 'a' <= c && c <= 'f' {
        Some(c as int - 87)
    } else if 'A' <= c && c <= 'F' {
        Some(c as int - 55)
    } else {
        None
    }
}

/// The bytes that `text` spells in hexadecimal digits of either case, if it is made
/// of pairs of such digits.
pub open spec fn hex_bytes(text: Seq<char>) -> Option<Seq<u8>> {
    if text.len() % 2 == 0 && (forall|i: int| 0 <= i < text.len() ==> hex_value(#[trigger] text[i]) is Some) {
        Some(
            Seq::new(
                text.len() / 2,
                |i: int| (16 * hex_value(text[2 * i])->0 + hex_value(text[2 * i + 1])->0) as u8,
            ),
        )
    } else {
        None
    }
}

/// `hex::encode`: two lower-case hexadecimal digits for each byte.
#[verifier::external_body]
pub(crate) fn hex_encode(bytes: &[u8]) -> (text: String)
    ensures
        text@ == hex_text(bytes@),
{
    hex::encode(bytes)
}

/// `hex::decode`: the bytes that pairs of hexadecimal digits of either case spell.
/// It fails on text of odd length and on text with any other character.
#[verifier::external_body]
pub(crate) fn hex_decode(text: &str) -> (bytes: Option<Vec<u8>>)
    ensures
        match bytes {
            Some(b) => hex_bytes(text@) == Some(b@),
            None => hex_bytes(text@) is None,
        },
{
    hex::decode(text).ok()
}

/// Sixteen bytes that are marked as a random identifier: version four, in the
/// standard variant.
pub open spec fn is_random_uuid(bytes: Seq<u8>) -> bool {
    bytes.len() == 16 && bytes[6] as int / 16 == 4 && bytes[8] as int / 64 == 2
}

/// The text of a sixteen-byte identifier: its hexadecimal digits in groups of
/// eight, four, four, four and twelve, with hyphens between.
pub open spec fn uuid_text(bytes: Seq<u8>) -> Seq<char> {
    let h = hex_text(bytes);
    h.subrange(0, 8) + seq!['-'] + h.subrange(8, 12) + seq!['-'] + h.subrange(12, 16) + seq!['-'] + h.subrange(
        16,
        20,
    ) + seq!['-'] + h.subrange(20, 32)
}

/// `Uuid::new_v4`: a fresh random identifier. Which one is left to chance.
#[verifier::external_body]
pub(crate) fn random_uuid() -> (bytes: [u8; 16])
    ensures
        is_random_uuid(bytes@),
{
    Uuid::new_v4().into_bytes()
}

/// The `Display` text of a `Uuid`: lower-case hexadecimal digits with hyphens.
#[verifier::external_body]
pub(crate) fn uuid_to_text(bytes: [u8; 16]) -> (text: String)
    ensures
        text@ == uuid_text(bytes@),
{
    Uuid::from_bytes(bytes).to_string()
}

/// The text that `String::from_utf8_lossy` makes of bytes that are not UTF-8.
pub uninterp spec fn repaired_text(bytes: Seq<u8>) -> Seq<char>;

/// The text that stands for `bytes`: what they encode where they are UTF-8, and
/// a repaired text where they are not.
pub open spec fn text_of(bytes: Seq<u8>) -> Seq<char> {
    if valid_utf8(bytes) {
        decode_utf8(bytes)
    } else {
        repaired_text(bytes)
    }
}

/// `String::from_utf8_lossy`: UTF-8 is decoded as it stands; other bytes give a
/// text that depends on them alone.
#[verifier::external_body]
pub(crate) fn lossy_text(bytes: &[u8]) -> (text: String)
    ensures
        valid_utf8(bytes@) ==> text@ == decode_utf8(bytes@),
        !valid_utf8(bytes@) ==> text@ == repaired_text(bytes@),
{
    String::from_utf8_lossy(bytes).to_string()
}

/// A point in time, opaque here.
#[verifier::external_type_specification]
#[verifier::external_body]
pub struct ExSystemTime(SystemTime);

/// `SystemTime::now`. Nothing is stated: the result is what the clock shows.
pub assume_specification[ SystemTime::now ]() -> SystemTime;

/// `SystemTime::duration_since`, from the start of 1970; `None` where the clock is
/// set before that. Nothing is stated: the result is what the clock shows.
#[verifier::external_body]
pub(crate) fn since_unix_epoch(time: SystemTime) -> Option<Duration> {
    time.duration_since(SystemTime::UNIX_EPOCH).ok()
}

/// `Duration::as_millis`. Nothing is stated: the argument is a reading of the clock.
pub assume_specification[ Duration::as_millis ](span: &Duration) -> u128;

/// `Rng::fill` on the thread's generator: `n` bytes. Which ones is left to chance.
#[verifier::external_body]
pub(crate) fn random_bytes(n: usize) -> (bytes: Vec<u8>)
    ensures
        bytes@.len() == n,
{
    let mut bytes = vec![0u8; n];
    rand::thread_rng().fill(&mut bytes[..]);
    bytes
}

/// `Rng::gen_range` on the thread's generator: a number from `low` up to but not
/// including `high`.
#[verifier::external_body]
pub(crate) fn random_between(low: u64, high: u64) -> (n: u64)
    requires
        low < high,
    ensures
        low <= n < high,
{
    rand::thread_rng().gen_range(low..high)
}

/// A Bloom filter, opaque here.
#[verifier::external_type_specification]
#[verifier::external_body]
#[verifier::reject_recursive_types(T)]
pub struct ExBloom<T: ?Sized>(Bloom<T>);

/// The texts that a filter reports as present.
pub uninterp spec fn reported_by(filter: Bloom<String>) -> Set<Seq<char>>;

/// The filter has a bitmap of the size that it takes itself to have. A filter that
/// `Bloom::new` made has one; a filter put together from parts may not, and it then
/// panics.
pub uninterp spec fn intact(filter: Bloom<String>) -> bool;

/// The texts that a filter reports as present once `text` was put in it.
pub uninterp spec fn reported_after(filter: Bloom<String>, text: Seq<char>) -> Set<Seq<char>>;

/// How many bits the bitmap of a filter has.
pub uninterp spec fn bits_of(filter: Bloom<String>) -> int;

/// How many bits of its bitmap a filter looks at for one text, some of them perhaps twice.
pub uninterp spec fn rounds_of(filter: Bloom<String>) -> int;

/// `rounds` is `bits / items` times the natural logarithm of two, rounded up. That logarithm
/// is known here to lie between 0.6931471 and 0.6931472.
pub open spec fn is_best_rounds(rounds: int, bits: int, items: int) -> bool {
    &&& rounds >= 1
    &&& 10_000_000 * items * rounds >= 6_931_471 * bits
    &&& 10_000_000 * items * (rounds - 1) < 6_931_472 * bits
}

/// `Bloom::new`: an empty filter with a bitmap of `bitmap_size` bytes, which is meant
/// for `items` entries. It reports nothing. For each text it looks at as many bits as
/// suit that size and that number of entries best.
#[verifier::external_body]
pub(crate) fn new_filter(bitmap_size: usize, items: usize) -> (filter: Bloom<String>)
    requires
        0 < bitmap_size <= 0x1000_0000,
        0 < items,
    ensures
        intact(filter),
        reported_by(filter) == Set::<Seq<char>>::empty(),
        bits_of(filter) == 8 * bitmap_size,
        is_best_rounds(rounds_of(filter), 8 * bitmap_size, items as int),
{
    Bloom::new(bitmap_size, items)
}

/// `Bloom::check`: whether the filter reports `text`.
#[verifier::external_body]
pub(crate) fn filter_reports(filter: &Bloom<String>, text: &String) -> (r: bool)
    requires
        intact(*filter),
    ensures
        r == reported_by(*filter).contains(text@),
{
    filter.check(text)
}

/// `Bloom::set`: the filter reports `text` from now on, and all that it reported
/// before. Which other texts it comes to report depends on the filter, with the keys that
/// it was made with, and on `text` alone; which those are is left open. The size of the
/// filter stays as it is.
#[verifier::external_body]
pub(crate) fn filter_record(filter: &mut Bloom<String>, text: &String)
    requires
        intact(*old(filter)),
    ensures
        intact(*final(filter)),
        bits_of(*final(filter)) == bits_of(*old(filter)),
        rounds_of(*final(filter)) == rounds_of(*old(filter)),
        reported_by(*final(filter)) == reported_after(*old(filter), text@),
        reported_by(*final(filter)).contains(text@),
        reported_by(*old(filter)).subset_of(reported_by(*final(filter))),
    no_unwind
{
    filter.set(text)
}

/// Decoding the hexadecimal text of some bytes gives those bytes back.
pub proof fn hex_round_trip(bytes: Seq<u8>)
    ensures
        hex_bytes(hex_text(bytes)) == Some(bytes),
{
    let text = hex_text(bytes);
    assert forall|i: int| 0 <= i < text.len() implies hex_value(#[trigger] text[i]) is Some by {
        let b = bytes[i / 2] as int;
        assert(0 <= b / 16 < 16 && 0 <= b % 16 < 16);
    }
    assert forall|i: int| 0 <= i < bytes.len() implies #[trigger] hex_bytes(text)->0[i] == bytes[i] by {
        let b = bytes[i] as int;
        assert((2 * i) % 2 == 0 && (2 * i) / 2 == i);
        assert((2 * i + 1) % 2 == 1 && (2 * i + 1) / 2 == i);
        assert(text[2 * i] == hex_digit(b / 16));
        assert(text[2 * i + 1] == hex_digit(b % 16));
        assert(0 <= b / 16 < 16 && 0 <= b % 16 < 16);
        assert(b == 16 * (b / 16) + b % 16);
    }
    assert(hex_bytes(text)->0 =~= bytes);
}

/// Hexadecimal text takes one byte for each digit.
pub proof fn hex_is_ascii(bytes: Seq<u8>)
    ensures
        encode_utf8(hex_text(bytes)).len() == 2 * bytes.len(),
{
    let text = hex_text(bytes);
    assert forall|i: int| 0 <= i < text.len() implies 0 <= #[trigger] text[i] as int <= 127 by {
        let b = bytes[i / 2] as int;
        assert(0 <= b / 16 < 16 && 0 <= b % 16 < 16);
    }
    vstd::utf8::is_ascii_chars_encode_utf8(text);
}

} // verus!
