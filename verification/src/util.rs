//! The clock and the dice.

use rand::distributions::Alphanumeric;
use rand::rngs::SmallRng;
use rand::Rng;
use std::time::SystemTime;
use uuid::Uuid;
use vstd::prelude::*;

verus! {

/// `SystemTime::elapsed` of std, called on the Unix epoch: how far the system's
/// clock stands beyond it, in whole seconds and the nanoseconds that go beyond them,
/// less than a second; none where the clock stands before it. How far that is rests
/// on the clock.
#[verifier::external_body]
fn clock_reading() -> (reading: Option<(u64, u32)>)
    ensures
        reading matches Some(elapsed) ==> elapsed.1 < 1_000_000_000,
{
    match SystemTime::UNIX_EPOCH.elapsed() {
        Ok(elapsed) => Some((elapsed.as_secs(), elapsed.subsec_nanos())),
        Err(_) => None,
    }
}

/// Whether `reading` is what a call of `clock_reading` gave.
pub closed spec fn clock_showed(reading: Option<(u64, u32)>) -> bool {
    call_ensures(clock_reading, (), reading)
}

/// What the clock shows.
fn read_clock() -> (reading: Option<(u64, u32)>)
    ensures
        clock_showed(reading),
        reading matches Some(elapsed) ==> elapsed.1 < 1_000_000_000,
{
    clock_reading()
}

/// The whole seconds since the Unix epoch that a reading of the clock gives, and
/// zero for a clock that stands before it.
pub open spec fn seconds_shown(reading: Option<(u64, u32)>) -> u64 {
    match reading {
        Some(elapsed) => elapsed.0,
        None => 0,
    }
}

/// The whole milliseconds since the Unix epoch that a reading of the clock gives,
/// as far as an `i64` counts, and zero for a clock that stands before it.
pub open spec fn millis_shown(reading: Option<(u64, u32)>) -> int {
    match reading {
        Some(elapsed) => {
            let all = elapsed.0 * 1000 + elapsed.1 as int / 1_000_000;
            if all <= i64::MAX {
                all
            } else {
                i64::MAX as int
            }
        },
        None => 0,
    }
}

/// The seconds are the largest number that does not go beyond the clock, and so are
/// the milliseconds, up to the largest `i64`; a clock before the epoch shows zero.
pub proof fn law_timestamps_round_down(seconds: u64, nanos: u32)
    requires
        nanos < 1_000_000_000,
    ensures
        ({
            let elapsed = seconds * 1_000_000_000 + nanos;
            let s = seconds_shown(Some((seconds, nanos)));
            let ms = millis_shown(Some((seconds, nanos)));
            &&& s * 1_000_000_000 <= elapsed < (s + 1) * 1_000_000_000
            &&& ms * 1_000_000 <= elapsed
            &&& ms < i64::MAX ==> elapsed < (ms + 1) * 1_000_000
            &&& 0 <= ms <= i64::MAX
        }),
        seconds_shown(None) == 0,
        millis_shown(None) == 0,
{
}

/// The whole seconds since the Unix epoch that a reading of the clock gives, and
/// zero for a clock that stands before it.
pub fn timestamp_of(reading: Option<(u64, u32)>) -> (seconds: u64)
    ensures
        seconds == seconds_shown(reading),
{
    match reading {
        Some((seconds, _)) => seconds,
        None => 0,
    }
}

/// The whole milliseconds since the Unix epoch that a reading of the clock gives,
/// as far as an `i64` counts, and zero for a clock that stands before it.
pub fn timestamp_millis_of(reading: Option<(u64, u32)>) -> (millis: i64)
    ensures
        millis == millis_shown(reading),
{
    match reading {
        Some((seconds, nanos)) => {
            let all: u128 = seconds as u128 * 1000 + nanos as u128 / 1_000_000;
            if all <= i64::MAX as u128 {
                all as i64
            } else {
                i64::MAX
            }
        },
        None => 0,
    }
}

/// The seconds since the Unix epoch on the system's clock: `timestamp_of` of what
/// it shows.
pub fn unix_timestamp() -> (seconds: u64)
    ensures
        exists|reading: Option<(u64, u32)>| #[trigger]
            clock_showed(reading) && seconds == seconds_shown(reading),
{
    timestamp_of(read_clock())
}

/// The milliseconds since the Unix epoch on the system's clock:
/// `timestamp_millis_of` of what it shows.
pub fn unix_timestamp_millis() -> (millis: i64)
    ensures
        millis >= 0,
        exists|reading: Option<(u64, u32)>| #[trigger]
            clock_showed(reading) && millis == millis_shown(reading),
{
    timestamp_millis_of(read_clock())
}

/// What `unix_timestamp` and `unix_timestamp_millis` give are the seconds and the
/// milliseconds of a reading of the clock.
pub proof fn law_time_comes_from_the_clock(seconds: u64, millis: i64)
    requires
        call_ensures(unix_timestamp, (), seconds),
        call_ensures(unix_timestamp_millis, (), millis),
    ensures
        exists|reading: Option<(u64, u32)>| #[trigger]
            clock_showed(reading) && (match reading {
                Some(elapsed) => seconds == elapsed.0,
                None => seconds == 0,
            }),
        exists|reading: Option<(u64, u32)>| #[trigger]
            clock_showed(reading) && millis == millis_shown(reading),
{
    let reading = choose|reading: Option<(u64, u32)>| #[trigger]
        clock_showed(reading) && seconds == seconds_shown(reading);
    assert(clock_showed(reading));
}

/// `rand::rngs::SmallRng`: a generator of random numbers.
#[verifier::external_type_specification]
#[verifier::external_body]
pub struct ExSmallRng(SmallRng);

/// `rand::Rng::gen_range` over the positions below `bound`: one of them. Which one
/// is left to chance.
#[verifier::external_body]
fn random_index(rng: &mut SmallRng, bound: usize) -> (index: usize)
    requires
        bound > 0,
    ensures
        index < bound,
{
    rng.gen_range(0..bound)
}

/// `rand::Rng::gen_range` over the `u32` numbers below `bound`: one of them. Which
/// one is left to chance.
#[verifier::external_body]
fn random_below(rng: &mut SmallRng, bound: u32) -> (number: u32)
    requires
        bound > 0,
    ensures
        number < bound,
{
    rng.gen_range(0..bound)
}

/// Whether a draw of a position below `bound` from `rng` gave `index`; what it made of
/// the generator is `*final(rng)`.
pub closed spec fn index_drawn(rng: &mut SmallRng, bound: usize, index: usize) -> bool {
    call_ensures(random_index, (rng, bound), index)
}

/// Draws a position below `bound`.
pub(crate) fn draw_index(rng: &mut SmallRng, bound: usize) -> (index: usize)
    requires
        bound > 0,
    ensures
        index < bound,
        exists|r: &mut SmallRng|
            *r == *old(rng) && *final(r) == *final(rng) && #[trigger] index_drawn(r, bound, index),
{
    let index: usize = random_index(rng, bound);
    proof {
        let r = choose|r: &mut SmallRng|
            *r == *old(rng) && *final(r) == *final(rng) && #[trigger] call_ensures(
                random_index,
                (r, bound),
                index,
            );
        assert(index_drawn(r, bound, index));
    }
    index
}

/// Whether a draw of a number below `bound` from `rng` gave `number`; what it made of
/// the generator is `*final(rng)`.
pub closed spec fn number_drawn(rng: &mut SmallRng, bound: u32, number: u32) -> bool {
    call_ensures(random_below, (rng, bound), number)
}

/// Draws a number below `bound`.
pub(crate) fn draw_below(rng: &mut SmallRng, bound: u32) -> (number: u32)
    requires
        bound > 0,
    ensures
        number < bound,
        exists|r: &mut SmallRng|
            *r == *old(rng) && *final(r) == *final(rng) && #[trigger] number_drawn(
                r,
                bound,
                number,
            ),
{
    let number: u32 = random_below(rng, bound);
    proof {
        let r = choose|r: &mut SmallRng|
            *r == *old(rng) && *final(r) == *final(rng) && #[trigger] call_ensures(
                random_below,
                (r, bound),
                number,
            );
        assert(number_drawn(r, bound, number));
    }
    number
}

/// A draw gives one of the positions, or one of the numbers, that it was asked for.
pub proof fn law_draws_are_within_their_bounds(
    rng: &mut SmallRng,
    positions: usize,
    index: usize,
    numbers: u32,
    number: u32,
)
    ensures
        index_drawn(rng, positions, index) ==> index < positions,
        number_drawn(rng, numbers, number) ==> number < numbers,
{
}

/// The letters a to z and A to Z and the ten digits.
pub open spec fn is_alphanumeric(c: char) -> bool {
    'a' <= c <= 'z' || 'A' <= c <= 'Z' || '0' <= c <= '9'
}

/// `rand::Rng::sample` of `rand::distributions::Alphanumeric`: one of the letters a
/// to z and A to Z and the ten digits. Which one is left to chance.
#[verifier::external_body]
fn random_alphanumeric(rng: &mut SmallRng) -> (c: char)
    ensures
        is_alphanumeric(c),
{
    char::from(rng.sample(Alphanumeric))
}

/// Whether a draw of a letter or digit from `rng` gave `c`; what it made of the
/// generator is `*final(rng)`.
pub closed spec fn letter_drawn(rng: &mut SmallRng, c: char) -> bool {
    call_ensures(random_alphanumeric, (rng,), c)
}

/// Draws a letter or digit.
fn draw_alphanumeric(rng: &mut SmallRng) -> (c: char)
    ensures
        is_alphanumeric(c),
        exists|r: &mut SmallRng|
            *r == *old(rng) && *final(r) == *final(rng) && #[trigger] letter_drawn(r, c),
{
    let c: char = random_alphanumeric(rng);
    proof {
        let r = choose|r: &mut SmallRng|
            *r == *old(rng) && *final(r) == *final(rng) && #[trigger] call_ensures(
                random_alphanumeric,
                (r,),
                c,
            );
        assert(letter_drawn(r, c));
    }
    c
}

/// A random text of `size` letters and digits, of which each takes one byte. Each is
/// a draw of its own, the next from where the one before left the generator.
pub fn random_payload(size: usize, rng: &mut SmallRng) -> (payload: String)
    ensures
        payload@.len() == size,
        vstd::utf8::encode_utf8(payload@).len() == size,
        forall|i: int| 0 <= i < size ==> is_alphanumeric(#[trigger] payload@[i]),
        exists|states: Seq<SmallRng>|
            {
                &&& #[trigger] states.len() == size + 1
                &&& states[0] == *old(rng)
                &&& states[size as int] == *final(rng)
                &&& forall|i: int|
                    0 <= i < size ==> is_alphanumeric(#[trigger] payload@[i]) && exists|r: &mut SmallRng|
                        *r == states[i] && *final(r) == states[i + 1] && #[trigger] letter_drawn(
                            r,
                            payload@[i],
                        )
            },
{
    let mut payload: String = String::new();
    let ghost mut states: Seq<SmallRng> = seq![*rng];
    let mut i: usize = 0;
    while i < size
        invariant
            i <= size,
            payload@.len() == i,
            forall|j: int| 0 <= j < i ==> is_alphanumeric(#[trigger] payload@[j]),
            states.len() == i + 1,
            states[0] == *old(rng),
            states[i as int] == *rng,
            forall|j: int|
                0 <= j < i ==> is_alphanumeric(#[trigger] payload@[j]) && exists|r: &mut SmallRng|
                    *r == states[j] && *final(r) == states[j + 1] && #[trigger] letter_drawn(
                        r,
                        payload@[j],
                    ),
        decreases size - i,
    {
        let ghost drawn = payload@;
        let ghost passed = states;
        let c: char = draw_alphanumeric(rng);
        payload.push(c);
        proof {
            states = states.push(*rng);
            assert forall|j: int|
                0 <= j < i + 1 implies is_alphanumeric(#[trigger] payload@[j]) && exists|
                r: &mut SmallRng,
            |
                *r == states[j] && *final(r) == states[j + 1] && #[trigger] letter_drawn(
                    r,
                    payload@[j],
                ) by {
                if j < i {
                    assert(passed[j] == states[j] && passed[j + 1] == states[j + 1]);
                    assert(drawn[j] == payload@[j]);
                } else {
                    assert(payload@[j] == c);
                }
            }
        }
        i = i + 1;
    }
    proof {
        vstd::utf8::is_ascii_chars_encode_utf8(payload@);
    }
    payload
}

/// Whether `id` is a UUID of version 4 in the variant of RFC 9562: its thirteenth
/// hexadecimal digit is 4, and its seventeenth is 8, 9, a or b.
pub open spec fn is_random_uuid(id: u128) -> bool {
    &&& id / 0x1000_0000_0000_0000_0000u128 % 16 == 4
    &&& id / 0x4000_0000_0000_0000u128 % 4 == 2
}

/// `uuid::Uuid::new_v4`, as the number of its 128 bits: a UUID of version 4. Its
/// other bits are left to chance.
#[verifier::external_body]
fn random_uuid() -> (id: u128)
    ensures
        is_random_uuid(id),
{
    Uuid::new_v4().as_u128()
}

/// Whether `id` is what a call of `random_uuid` gave.
pub closed spec fn uuid_drawn(id: u128) -> bool {
    call_ensures(random_uuid, (), id)
}

/// Draws a UUID.
pub(crate) fn draw_uuid() -> (id: u128)
    ensures
        is_random_uuid(id),
        uuid_drawn(id),
{
    random_uuid()
}

} // verus!
