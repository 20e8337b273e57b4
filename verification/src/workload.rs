//! The reads and writes that the workers send, and what becomes of them.

use rand::rngs::SmallRng;
use std::collections::VecDeque;
use vstd::prelude::*;

use crate::config::Config;
use crate::metrics::{Counter, Metric};
use crate::state::{
    mark_cassandra_unready, mark_success, Change, ReasonChange, Runtime, RuntimeState, Stats,
    REASON_TOO_MANY_ERRORS,
};
use crate::text::push_decimal;
use crate::util::{
    draw_below, draw_index, draw_uuid, index_drawn, letter_drawn, number_drawn, random_payload,
    uuid_drawn,
};

verus! {

/// The primary key of a row.
#[derive(Debug)]
pub struct WrittenKey {
    pub bucket: String,
    /// The 128 bits of the row's UUID.
    pub id: u128,
}

/// What a `WrittenKey` says.
pub struct Key {
    pub bucket: Seq<char>,
    pub id: u128,
}

impl View for WrittenKey {
    type V = Key;

    open spec fn view(&self) -> Key {
        Key { bucket: self.bucket@, id: self.id }
    }
}

impl DeepView for WrittenKey {
    type V = Key;

    open spec fn deep_view(&self) -> Key {
        self@
    }
}

impl Clone for WrittenKey {
    fn clone(&self) -> (key: Self)
        ensures
            key@ == self@,
    {
        WrittenKey { bucket: self.bucket.clone(), id: self.id }
    }
}

/// The keys that were written last, oldest first.
#[derive(Debug)]
pub struct KeyRing {
    keys: VecDeque<WrittenKey>,
    capacity: usize,
}

/// What a `KeyRing` holds.
pub struct Ring {
    pub keys: Seq<Key>,
    pub capacity: nat,
}

impl View for KeyRing {
    type V = Ring;

    closed spec fn view(&self) -> Ring {
        Ring { keys: self.keys.deep_view(), capacity: self.capacity as nat }
    }
}

impl Ring {
    /// The ring with `key` as its latest: a full ring gives up its oldest key for it.
    pub open spec fn push(self, key: Key) -> Ring {
        let kept = if self.keys.len() == self.capacity && self.keys.len() > 0 {
            self.keys.drop_first()
        } else {
            self.keys
        };
        Ring { keys: kept.push(key), capacity: self.capacity }
    }

    /// The ring after all of `keys`, one after the other.
    pub open spec fn push_all(self, keys: Seq<Key>) -> Ring
        decreases keys.len(),
    {
        if keys.len() == 0 {
            self
        } else {
            self.push_all(keys.drop_last()).push(keys.last())
        }
    }

    /// Whether the ring holds no more than it has room for.
    pub open spec fn fits(self) -> bool {
        self.keys.len() <= self.capacity
    }
}

/// The last `n` of `keys`, or all of them where there are fewer.
pub open spec fn latest(keys: Seq<Key>, n: nat) -> Seq<Key> {
    if keys.len() <= n {
        keys
    } else {
        keys.skip(keys.len() - n)
    }
}

/// A ring with room for at least one key holds, after any number of keys, the latest
/// of them, as many as it has room for.
pub proof fn law_ring_holds_the_latest(ring: Ring, keys: Seq<Key>)
    requires
        ring.capacity > 0,
        ring.fits(),
    ensures
        ring.push_all(keys).keys == latest(ring.keys + keys, ring.capacity),
        ring.push_all(keys).capacity == ring.capacity,
        ring.push_all(keys).fits(),
    decreases keys.len(),
{
    if keys.len() == 0 {
        assert(ring.keys + keys == ring.keys);
    } else {
        law_ring_holds_the_latest(ring, keys.drop_last());
        let before = ring.keys + keys.drop_last();
        assert(ring.keys + keys == before.push(keys.last()));
        assert(ring.push_all(keys).keys =~= latest(ring.keys + keys, ring.capacity));
    }
}

impl KeyRing {
    /// An empty ring with room for `capacity` keys. Their room is set aside at once, 48
    /// bytes for each of them, so it has to be within what memory can address.
    pub fn new(capacity: usize) -> (ring: Self)
        requires
            capacity * 48 <= isize::MAX,
        ensures
            ring@ == (Ring { keys: Seq::empty(), capacity: capacity as nat }),
    {
        let ring: KeyRing = KeyRing { keys: VecDeque::with_capacity(capacity), capacity };
        assert(ring@.keys == Seq::<Key>::empty());
        ring
    }

    /// Takes in `key` as the latest; a full ring gives up its oldest key for it.
    pub fn push(&mut self, key: WrittenKey)
        ensures
            final(self)@ == old(self)@.push(key@),
    {
        let ghost before = self@.keys;
        if self.keys.len() == self.capacity {
            self.keys.pop_front();
            assert(before.len() > 0 ==> self@.keys == before.drop_first());
        }
        let ghost kept = self@.keys;
        self.keys.push_back(key);
        assert(self@.keys == kept.push(key@));
    }

    /// The key at `index`, counted from the oldest.
    pub fn get(&self, index: usize) -> (key: Option<WrittenKey>)
        ensures
            match key {
                Some(key) => index < self@.keys.len() && key@ == self@.keys[index as int],
                None => index >= self@.keys.len(),
            },
    {
        if index < self.keys.len() {
            Some(self.keys[index].clone())
        } else {
            None
        }
    }

    /// One of the keys, the one at the position that is drawn; none only where there
    /// is none.
    pub fn random_recent(&self, rng: &mut SmallRng) -> (key: Option<WrittenKey>)
        ensures
            match key {
                Some(key) => {
                    &&& self@.keys.contains(key@)
                    &&& exists|r: &mut SmallRng, i: usize|
                        *r == *old(rng) && *final(r) == *final(rng) && #[trigger] index_drawn(
                            r,
                            self@.keys.len() as usize,
                            i,
                        ) && i < self@.keys.len() && key@ == self@.keys[i as int]
                },
                None => self@.keys.len() == 0 && *final(rng) == *old(rng),
            },
    {
        if self.keys.len() == 0 {
            return None;
        }
        let count: usize = self.keys.len();
        assert(self@.keys.len() as usize == count);
        let index: usize = draw_index(rng, count);
        self.get(index)
    }
}

/// Where the key of a read comes from.
#[derive(Clone, Copy, Debug, PartialEq, Eq, Structural)]
pub enum ReadSource {
    /// From the keys that were written last.
    Recent,
    /// Made up, so that no row is expected.
    RandomMissProbe,
}

/// The name of a source in labels and logs.
pub open spec fn source_name(source: ReadSource) -> Seq<char> {
    match source {
        ReadSource::Recent => "recent"@,
        ReadSource::RandomMissProbe => "random_miss_probe"@,
    }
}

impl ReadSource {
    /// The name of the source in labels and logs.
    pub fn as_str(self) -> (name: &'static str)
        ensures
            name@ == source_name(self),
    {
        match self {
            ReadSource::Recent => "recent",
            ReadSource::RandomMissProbe => "random_miss_probe",
        }
    }
}

/// The name of the bucket with the number `n`.
pub open spec fn bucket_name(n: nat) -> Seq<char> {
    "bucket_"@ + crate::text::decimal(n)
}

/// Buckets with different numbers have different names.
pub proof fn law_bucket_names_differ(m: nat, n: nat)
    requires
        m != n,
    ensures
        bucket_name(m) != bucket_name(n),
{
    if bucket_name(m) == bucket_name(n) {
        let prefix = "bucket_"@;
        assert(bucket_name(m).skip(prefix.len() as int) == crate::text::decimal(m));
        assert(bucket_name(n).skip(prefix.len() as int) == crate::text::decimal(n));
        crate::text::law_decimal_is_injective(m, n);
    }
}

/// The name of the bucket with the number `n`.
pub fn bucket_named(n: usize) -> (name: String)
    ensures
        name@ == bucket_name(n as nat),
{
    let mut name: String = "bucket_".to_owned();
    push_decimal(&mut name, n as u64);
    name
}

/// How many buckets the made-up keys spread over.
pub open spec fn probe_buckets(config: Config) -> usize {
    if config.historical_read_enabled {
        config.historical_buckets
    } else {
        config.buckets
    }
}

/// Whether `key` has the name of one of the first `buckets` buckets and a random
/// UUID.
pub open spec fn is_fresh_key(key: Key, buckets: nat) -> bool {
    &&& exists|n: nat| n < buckets && key.bucket == #[trigger] bucket_name(n)
    &&& crate::util::is_random_uuid(key.id)
}

/// A key in the bucket that is drawn of the first `buckets`, with a UUID that is drawn.
fn fresh_key(buckets: usize, rng: &mut SmallRng) -> (key: WrittenKey)
    requires
        buckets > 0,
    ensures
        is_fresh_key(key@, buckets as nat),
        uuid_drawn(key.id),
        exists|r: &mut SmallRng, n: usize|
            *r == *old(rng) && *final(r) == *final(rng) && #[trigger] index_drawn(r, buckets, n)
                && n < buckets && key.bucket@ == bucket_name(n as nat),
{
    let n: usize = draw_index(rng, buckets);
    WrittenKey { bucket: bucket_named(n), id: draw_uuid() }
}

/// A key for which no row is expected.
pub fn random_probe_key(config: &Config, rng: &mut SmallRng) -> (key: WrittenKey)
    requires
        probe_buckets(*config) > 0,
    ensures
        is_fresh_key(key@, probe_buckets(*config) as nat),
        uuid_drawn(key.id),
        exists|r: &mut SmallRng, n: usize|
            *r == *old(rng) && *final(r) == *final(rng) && #[trigger] index_drawn(
                r,
                probe_buckets(*config),
                n,
            ) && n < probe_buckets(*config) && key.bucket@ == bucket_name(n as nat),
{
    let bucket_count: usize = if config.historical_read_enabled {
        config.historical_buckets
    } else {
        config.buckets
    };
    fresh_key(bucket_count, rng)
}

/// The two kinds of operations.
#[derive(Clone, Copy, Debug, PartialEq, Eq, Structural)]
pub enum Operation {
    Read,
    Write,
}

/// What a dice with `read_ratio + write_ratio` sides says: its first `read_ratio`
/// sides are reads.
pub open spec fn operation_on(config: Config, dice: int) -> Operation {
    if dice < config.read_ratio {
        Operation::Read
    } else {
        Operation::Write
    }
}

/// Of the sides of the dice as many are reads as the read ratio says, and as many
/// are writes as the write ratio says.
pub proof fn law_ratios_are_weights(config: Config)
    ensures
        ({
            let sides = config.read_ratio + config.write_ratio;
            let reads = Set::new(
                |dice: int| 0 <= dice < sides && operation_on(config, dice) == Operation::Read,
            );
            let writes = Set::new(
                |dice: int| 0 <= dice < sides && operation_on(config, dice) == Operation::Write,
            );
            reads.len() == config.read_ratio && writes.len() == config.write_ratio
        }),
{
    let sides = config.read_ratio + config.write_ratio;
    let reads = Set::new(
        |dice: int| 0 <= dice < sides && operation_on(config, dice) == Operation::Read,
    );
    let writes = Set::new(
        |dice: int| 0 <= dice < sides && operation_on(config, dice) == Operation::Write,
    );
    vstd::set_lib::lemma_int_range(0, config.read_ratio as int);
    vstd::set_lib::lemma_int_range(config.read_ratio as int, sides);
    assert(reads =~= vstd::set_lib::set_int_range(0, config.read_ratio as int));
    assert(writes =~= vstd::set_lib::set_int_range(config.read_ratio as int, sides));
}

/// The operation that a dice says.
pub fn operation_for(config: &Config, dice: u32) -> (operation: Operation)
    ensures
        operation == operation_on(*config, dice as int),
{
    if dice < config.read_ratio {
        Operation::Read
    } else {
        Operation::Write
    }
}

/// What a worker does at a tick: nothing without a client, else what a throw of the
/// dice says.
pub fn next_operation<C>(state: &RuntimeState<C>, config: &Config, rng: &mut SmallRng) -> (next:
    Option<Operation>)
    requires
        1 <= config.read_ratio + config.write_ratio <= u32::MAX,
    ensures
        match next {
            Some(operation) => {
                &&& state.cassandra is Some
                &&& exists|dice: int|
                    0 <= dice < config.read_ratio + config.write_ratio && operation
                        == #[trigger] operation_on(*config, dice)
                &&& exists|r: &mut SmallRng, dice: u32|
                    *r == *old(rng) && *final(r) == *final(rng) && #[trigger] number_drawn(
                        r,
                        (config.read_ratio + config.write_ratio) as u32,
                        dice,
                    ) && operation == operation_on(*config, dice as int)
            },
            None => state.cassandra is None && *final(rng) == *old(rng),
        },
{
    if state.cassandra.is_none() {
        return None;
    }
    let ratio_total: u32 = config.read_ratio + config.write_ratio;
    let dice: u32 = draw_below(rng, ratio_total);
    Some(operation_for(config, dice))
}

/// One throw of a dice with as many sides as the two ratios add up to decides: a read
/// where it falls below the read ratio, and a write where it does not.
pub proof fn law_the_dice_decide<C>(
    state: RuntimeState<C>,
    config: Config,
    rng: &mut SmallRng,
    next: Option<Operation>,
)
    requires
        call_ensures(next_operation::<C>, (&state, &config, rng), next),
    ensures
        next is Some <==> state.cassandra is Some,
        next matches Some(operation) ==> exists|r: &mut SmallRng, dice: u32|
            *r == *old(rng) && *final(r) == *final(rng) && #[trigger] number_drawn(
                r,
                (config.read_ratio + config.write_ratio) as u32,
                dice,
            ) && (operation == Operation::Read <==> dice < config.read_ratio),
        next is None ==> *final(rng) == *old(rng),
{
}

/// The values of the row that a write inserts.
#[derive(Debug)]
pub struct WriteOperation {
    pub key: WrittenKey,
    /// Milliseconds since the Unix epoch.
    pub created_at: i64,
    pub payload: String,
    pub writer_id: String,
    pub version: i32,
}

/// The write of a row with the given key, time and payload.
pub fn write_operation(config: &Config, key: WrittenKey, created_at: i64, payload: String) -> (write:
    WriteOperation)
    ensures
        write.key == key,
        write.created_at == created_at,
        write.payload == payload,
        write.writer_id@ == config.writer_id@,
        write.version == 1,
{
    WriteOperation { key, created_at, payload, writer_id: config.writer_id.clone(), version: 1 }
}

/// A write of a new row, made up at random, at the time `created_at`.
pub fn plan_write(config: &Config, created_at: i64, rng: &mut SmallRng) -> (write: WriteOperation)
    requires
        config.buckets > 0,
    ensures
        is_fresh_key(write.key@, config.buckets as nat),
        write.created_at == created_at,
        vstd::utf8::encode_utf8(write.payload@).len() == config.payload_bytes,
        write.payload@.len() == config.payload_bytes,
        forall|i: int|
            0 <= i < config.payload_bytes ==> crate::util::is_alphanumeric(
                #[trigger] write.payload@[i],
            ),
        write.writer_id@ == config.writer_id@,
        write.version == 1,
        uuid_drawn(write.key.id),
        exists|r: &mut SmallRng, n: usize, states: Seq<SmallRng>|
            {
                &&& *r == *old(rng)
                &&& #[trigger] index_drawn(r, config.buckets, n)
                &&& n < config.buckets
                &&& write.key.bucket@ == bucket_name(n as nat)
                &&& #[trigger] states.len() == config.payload_bytes + 1
                &&& states[0] == *final(r)
                &&& states[config.payload_bytes as int] == *final(rng)
                &&& forall|i: int|
                    0 <= i < config.payload_bytes ==> crate::util::is_alphanumeric(
                        #[trigger] write.payload@[i],
                    ) && exists|q: &mut SmallRng|
                        *q == states[i] && *final(q) == states[i + 1] && #[trigger] letter_drawn(
                            q,
                            write.payload@[i],
                        )
            },
{
    let key: WrittenKey = fresh_key(config.buckets, rng);
    let payload: String = random_payload(config.payload_bytes, rng);
    write_operation(config, key, created_at, payload)
}

/// The key that a read asks for, and where it comes from. Where `recent` says so it
/// is one of those written last, if there are any; else it is made up.
pub fn plan_read(config: &Config, ring: &KeyRing, recent: bool, rng: &mut SmallRng) -> (read: (
    WrittenKey,
    ReadSource,
))
    requires
        probe_buckets(*config) > 0,
    ensures
        read.1 == (if recent && ring@.keys.len() > 0 {
            ReadSource::Recent
        } else {
            ReadSource::RandomMissProbe
        }),
        match read.1 {
            ReadSource::Recent => {
                &&& ring@.keys.contains(read.0@)
                &&& exists|r: &mut SmallRng, i: usize|
                    *r == *old(rng) && *final(r) == *final(rng) && #[trigger] index_drawn(
                        r,
                        ring@.keys.len() as usize,
                        i,
                    ) && i < ring@.keys.len() && read.0@ == ring@.keys[i as int]
            },
            ReadSource::RandomMissProbe => {
                &&& is_fresh_key(read.0@, probe_buckets(*config) as nat)
                &&& uuid_drawn(read.0.id)
                &&& exists|r: &mut SmallRng, n: usize|
                    *r == *old(rng) && *final(r) == *final(rng) && #[trigger] index_drawn(
                        r,
                        probe_buckets(*config),
                        n,
                    ) && n < probe_buckets(*config) && read.0.bucket@ == bucket_name(n as nat)
            },
        },
{
    if recent {
        match ring.random_recent(rng) {
            Some(key) => (key, ReadSource::Recent),
            None => (random_probe_key(config, rng), ReadSource::RandomMissProbe),
        }
    } else {
        (random_probe_key(config, rng), ReadSource::RandomMissProbe)
    }
}

/// A write inserts a row with the name of one of the buckets, a random UUID, the given
/// time, a text of letters and digits of as many bytes as the settings say, the name
/// of the writer and version one. The bucket, the UUID and each letter or digit are
/// draws.
pub proof fn law_writes_insert_what_the_settings_say(
    config: Config,
    created_at: i64,
    rng: &mut SmallRng,
    write: WriteOperation,
)
    requires
        call_ensures(plan_write, (&config, created_at, rng), write),
    ensures
        exists|r: &mut SmallRng, n: usize|
            *r == *old(rng) && #[trigger] index_drawn(r, config.buckets, n) && n < config.buckets
                && write.key.bucket@ == "bucket_"@ + crate::text::decimal(n as nat),
        uuid_drawn(write.key.id),
        crate::util::is_random_uuid(write.key.id),
        write.created_at == created_at,
        vstd::utf8::encode_utf8(write.payload@).len() == config.payload_bytes,
        forall|i: int|
            0 <= i < write.payload@.len() ==> crate::util::is_alphanumeric(
                #[trigger] write.payload@[i],
            ) && exists|q: &mut SmallRng| #[trigger] letter_drawn(q, write.payload@[i]),
        write.writer_id@ == config.writer_id@,
        write.version == 1,
{
    assert forall|i: int| 0 <= i < write.payload@.len() implies crate::util::is_alphanumeric(
        #[trigger] write.payload@[i],
    ) && exists|q: &mut SmallRng| #[trigger] letter_drawn(q, write.payload@[i]) by {
        let c = write.payload@[i];
        assert(crate::util::is_alphanumeric(c));
        assert(exists|q: &mut SmallRng| #[trigger] letter_drawn(q, c));
    }
}

/// A read asks for the key at a position of the ring that is drawn exactly where it is
/// to and the ring holds any; else for a random UUID in one of the buckets that the
/// settings say for such reads.
pub proof fn law_reads_ask_for_recent_keys_or_probe(
    config: Config,
    ring: KeyRing,
    recent: bool,
    rng: &mut SmallRng,
    read: (WrittenKey, ReadSource),
)
    requires
        call_ensures(plan_read, (&config, &ring, recent, rng), read),
    ensures
        read.1 == ReadSource::Recent <==> recent && ring@.keys.len() > 0,
        read.1 == ReadSource::Recent ==> exists|r: &mut SmallRng, i: usize|
            *r == *old(rng) && #[trigger] index_drawn(r, ring@.keys.len() as usize, i) && i
                < ring@.keys.len() && read.0@ == ring@.keys[i as int],
        read.1 == ReadSource::RandomMissProbe ==> uuid_drawn(read.0.id),
        read.1 == ReadSource::RandomMissProbe && config.historical_read_enabled ==> exists|
            r: &mut SmallRng,
            n: usize,
        |
            *r == *old(rng) && #[trigger] index_drawn(r, config.historical_buckets, n) && n
                < config.historical_buckets && read.0.bucket@ == "bucket_"@
                + crate::text::decimal(n as nat),
        read.1 == ReadSource::RandomMissProbe && !config.historical_read_enabled ==> exists|
            r: &mut SmallRng,
            n: usize,
        |
            *r == *old(rng) && #[trigger] index_drawn(r, config.buckets, n) && n < config.buckets
                && read.0.bucket@ == "bucket_"@ + crate::text::decimal(n as nat),
{
}

/// A line of the log about the operations so far.
#[derive(Clone, Copy, Debug, PartialEq, Eq, Structural)]
pub struct StatsLine {
    pub reads_ok: u64,
    pub reads_empty: u64,
    pub reads_failed: u64,
    pub writes_ok: u64,
    pub writes_failed: u64,
    /// The successes since the last line.
    pub successes: u64,
    /// The seconds since the last line, and one where there are none.
    pub seconds: u64,
}

/// `a - b`, and zero where that is negative.
pub open spec fn minus(a: u64, b: u64) -> u64 {
    if a < b {
        0
    } else {
        (a - b) as u64
    }
}

/// Whether the success after those in `stats` is the one that a line is logged at.
pub open spec fn is_logged(stats: Stats, log_every: u64) -> bool {
    log_every > 0 && (stats.successes_since_log + 1) % (log_every as int) == 0
}

/// The counts after one more success at the time `now`, with a line after every
/// `log_every` of them; none of them is counted where that is zero.
pub open spec fn logged_stats(stats: Stats, log_every: u64, now: u64) -> Stats {
    let successes = (stats.successes_since_log + 1) as u64;
    if log_every == 0 {
        stats
    } else if is_logged(stats, log_every) {
        Stats {
            successes_since_log: successes,
            last_log_successes: successes,
            last_log_timestamp: now,
            ..stats
        }
    } else {
        Stats { successes_since_log: successes, ..stats }
    }
}

/// The line that is logged at one more success at the time `now`, if any.
pub open spec fn stats_line(stats: Stats, log_every: u64, now: u64) -> Option<StatsLine> {
    if is_logged(stats, log_every) {
        Some(
            StatsLine {
                reads_ok: stats.reads_found,
                reads_empty: stats.reads_empty,
                reads_failed: stats.reads_failed,
                writes_ok: stats.writes_ok,
                writes_failed: stats.writes_failed,
                successes: minus(
                    (stats.successes_since_log + 1) as u64,
                    stats.last_log_successes,
                ),
                seconds: if now > stats.last_log_timestamp {
                    minus(now, stats.last_log_timestamp)
                } else {
                    1
                },
            },
        )
    } else {
        None
    }
}

/// Counts a success at the time `now` and says what is to be logged of it.
pub fn maybe_log_success(stats: &mut Stats, config: &Config, now: u64) -> (line: Option<StatsLine>)
    requires
        config.log_every_n_success > 0 ==> old(stats).successes_since_log < u64::MAX,
    ensures
        *final(stats) == logged_stats(*old(stats), config.log_every_n_success, now),
        line == stats_line(*old(stats), config.log_every_n_success, now),
{
    if config.log_every_n_success == 0 {
        return None;
    }
    let successes: u64 = stats.successes_since_log + 1;
    stats.successes_since_log = successes;
    if successes % config.log_every_n_success != 0 {
        return None;
    }
    let previous_successes: u64 = stats.last_log_successes;
    let previous_ts: u64 = stats.last_log_timestamp;
    stats.last_log_successes = successes;
    stats.last_log_timestamp = now;
    let seconds: u64 = if now > previous_ts {
        now - previous_ts
    } else {
        1
    };
    Some(
        StatsLine {
            reads_ok: stats.reads_found,
            reads_empty: stats.reads_empty,
            reads_failed: stats.reads_failed,
            writes_ok: stats.writes_ok,
            writes_failed: stats.writes_failed,
            successes: successes.saturating_sub(previous_successes),
            seconds,
        },
    )
}

/// A line shows the counts as they stand, the successes and the seconds since the line
/// before, and never less than one second. All counts but those of the lines are left
/// as they were.
pub proof fn law_lines_show_the_counts(
    stats: &mut Stats,
    config: Config,
    now: u64,
    line: Option<StatsLine>,
)
    requires
        old(stats).successes_since_log < u64::MAX,
        call_ensures(maybe_log_success, (stats, &config, now), line),
    ensures
        line is Some <==> config.log_every_n_success > 0 && (old(stats).successes_since_log + 1)
            % (config.log_every_n_success as int) == 0,
        line matches Some(line) ==> {
            &&& line.reads_ok == old(stats).reads_found
            &&& line.reads_empty == old(stats).reads_empty
            &&& line.reads_failed == old(stats).reads_failed
            &&& line.writes_ok == old(stats).writes_ok
            &&& line.writes_failed == old(stats).writes_failed
            &&& old(stats).last_log_successes <= old(stats).successes_since_log
                ==> old(stats).last_log_successes + line.successes
                == old(stats).successes_since_log + 1
            &&& line.seconds >= 1
            &&& now > old(stats).last_log_timestamp ==> old(stats).last_log_timestamp
                + line.seconds == now
            &&& now <= old(stats).last_log_timestamp ==> line.seconds == 1
            &&& final(stats).last_log_successes == old(stats).successes_since_log + 1
            &&& final(stats).last_log_timestamp == now
        },
        line is None ==> final(stats).last_log_successes == old(stats).last_log_successes
            && final(stats).last_log_timestamp == old(stats).last_log_timestamp,
        final(stats).successes_since_log == old(stats).successes_since_log + (
        if config.log_every_n_success > 0 {
            1int
        } else {
            0int
        }),
        final(stats).reads_found == old(stats).reads_found,
        final(stats).reads_empty == old(stats).reads_empty,
        final(stats).reads_failed == old(stats).reads_failed,
        final(stats).writes_ok == old(stats).writes_ok,
        final(stats).writes_failed == old(stats).writes_failed,
{
}

/// The session was given up after too many failures in a row.
#[derive(Clone, Debug)]
pub struct SessionReset {
    pub consecutive_errors: u64,
    pub threshold: u64,
    pub change: Option<ReasonChange>,
}

/// What a `SessionReset` says.
pub struct Reset {
    pub consecutive_errors: u64,
    pub threshold: u64,
    pub change: Option<Change>,
}

impl DeepView for SessionReset {
    type V = Reset;

    open spec fn deep_view(&self) -> Reset {
        Reset {
            consecutive_errors: self.consecutive_errors,
            threshold: self.threshold,
            change: self.change.deep_view(),
        }
    }
}

/// Whether one more failure is one too many.
pub open spec fn gives_up<C>(state: Runtime<C>, threshold: u64) -> bool {
    threshold > 0 && state.consecutive_errors + 1 >= threshold
}

/// The state after one more failure: at the threshold the client is given up.
pub open spec fn after_error<C>(state: Runtime<C>, threshold: u64) -> Runtime<C> {
    let counted = Runtime {
        consecutive_errors: (state.consecutive_errors + 1) as u64,
        ..state
    };
    if gives_up(state, threshold) {
        Runtime { cassandra: None, reason: REASON_TOO_MANY_ERRORS@, ..counted }
    } else {
        counted
    }
}

/// The metrics that one more failure changes.
pub open spec fn error_metrics<C>(state: Runtime<C>, threshold: u64) -> Seq<Metric> {
    if gives_up(state, threshold) {
        seq![Metric::CassandraReady(false)]
    } else {
        seq![]
    }
}

/// What is logged of the session at one more failure.
pub open spec fn error_reset<C>(state: Runtime<C>, threshold: u64) -> Option<Reset> {
    if gives_up(state, threshold) {
        Some(
            Reset {
                consecutive_errors: (state.consecutive_errors + 1) as u64,
                threshold,
                change: crate::state::reason_change(state.reason, REASON_TOO_MANY_ERRORS@),
            },
        )
    } else {
        None
    }
}

/// Counts a failed operation; at the threshold the client is given up.
pub fn handle_operation_error<C>(
    state: &mut RuntimeState<C>,
    config: &Config,
    metrics: &mut Vec<Metric>,
) -> (reset: Option<SessionReset>)
    requires
        old(state).consecutive_errors < u64::MAX,
    ensures
        final(state)@ == after_error(old(state)@, config.reconnect_after_consecutive_errors),
        final(metrics)@ == old(metrics)@ + error_metrics(
            old(state)@,
            config.reconnect_after_consecutive_errors,
        ),
        reset.deep_view() == error_reset(
            old(state)@,
            config.reconnect_after_consecutive_errors,
        ),
{
    let errors: u64 = state.consecutive_errors + 1;
    state.consecutive_errors = errors;
    if config.reconnect_after_consecutive_errors == 0 {
        return None;
    }
    if errors >= config.reconnect_after_consecutive_errors {
        let change: Option<ReasonChange> = mark_cassandra_unready(
            state,
            REASON_TOO_MANY_ERRORS,
            metrics,
        );
        Some(
            SessionReset {
                consecutive_errors: errors,
                threshold: config.reconnect_after_consecutive_errors,
                change,
            },
        )
    } else {
        None
    }
}

/// What is logged of an operation.
#[derive(Clone, Debug)]
pub struct OperationLog {
    /// The statement failed.
    pub failed: bool,
    /// A key that had been written was not found.
    pub missed_recent: bool,
    pub stats: Option<StatsLine>,
    pub reset: Option<SessionReset>,
}

/// What an `OperationLog` says.
pub struct Log {
    pub failed: bool,
    pub missed_recent: bool,
    pub stats: Option<StatsLine>,
    pub reset: Option<Reset>,
}

impl View for OperationLog {
    type V = Log;

    open spec fn view(&self) -> Log {
        Log {
            failed: self.failed,
            missed_recent: self.missed_recent,
            stats: self.stats,
            reset: self.reset.deep_view(),
        }
    }
}

/// A count that goes up by one, and from its largest value to zero.
pub open spec fn bump(n: u64) -> u64 {
    if n == u64::MAX {
        0
    } else {
        (n + 1) as u64
    }
}

/// The state after an operation that succeeded at the time `now`.
pub open spec fn after_success<C>(state: Runtime<C>, log_every: u64, now: u64) -> Runtime<C> {
    Runtime {
        last_success: now,
        consecutive_errors: 0,
        stats: logged_stats(state.stats, log_every, now),
        ..state
    }
}

/// The state after a write of `key` that ended at the time `now`.
pub open spec fn after_write<C>(
    state: Runtime<C>,
    config: Config,
    key: Key,
    succeeded: bool,
    now: u64,
) -> Runtime<C> {
    if succeeded {
        let counted = Runtime {
            stats: Stats { writes_ok: bump(state.stats.writes_ok), ..state.stats },
            ring: state.ring.push(key),
            ..state
        };
        after_success(counted, config.log_every_n_success, now)
    } else {
        let counted = Runtime {
            stats: Stats { writes_failed: bump(state.stats.writes_failed), ..state.stats },
            ..state
        };
        after_error(counted, config.reconnect_after_consecutive_errors)
    }
}

/// The metrics that the end of a write changes.
pub open spec fn write_metrics<C>(
    state: Runtime<C>,
    config: Config,
    succeeded: bool,
    now: u64,
) -> Seq<Metric> {
    if succeeded {
        seq![Metric::Count(Counter::Writes), Metric::LastSuccess(now)]
    } else {
        seq![Metric::Count(Counter::WriteErrors)] + error_metrics(
            state,
            config.reconnect_after_consecutive_errors,
        )
    }
}

/// What is logged of the end of a write.
pub open spec fn write_log<C>(
    state: Runtime<C>,
    config: Config,
    succeeded: bool,
    now: u64,
) -> Log {
    Log {
        failed: !succeeded,
        missed_recent: false,
        stats: if succeeded {
            stats_line(
                Stats { writes_ok: bump(state.stats.writes_ok), ..state.stats },
                config.log_every_n_success,
                now,
            )
        } else {
            None
        },
        reset: if succeeded {
            None
        } else {
            error_reset(state, config.reconnect_after_consecutive_errors)
        },
    }
}

/// Takes in the end, at the time `now`, of a write of `key`.
pub fn finish_write<C>(
    state: &mut RuntimeState<C>,
    config: &Config,
    key: WrittenKey,
    succeeded: bool,
    now: u64,
    metrics: &mut Vec<Metric>,
) -> (log: OperationLog)
    requires
        !succeeded ==> old(state).consecutive_errors < u64::MAX,
        succeeded && config.log_every_n_success > 0 ==> old(state).stats.successes_since_log
            < u64::MAX,
    ensures
        final(state)@ == after_write(old(state)@, *config, key@, succeeded, now),
        final(metrics)@ == old(metrics)@ + write_metrics(old(state)@, *config, succeeded, now),
        log@ == write_log(old(state)@, *config, succeeded, now),
{
    if succeeded {
        metrics.push(Metric::Count(Counter::Writes));
        state.stats.writes_ok = state.stats.writes_ok.wrapping_add(1);
        mark_success(
            &mut state.last_success_timestamp,
            &mut state.consecutive_errors,
            now,
            metrics,
        );
        state.ring.push(key);
        let stats: Option<StatsLine> = maybe_log_success(&mut state.stats, config, now);
        OperationLog { failed: false, missed_recent: false, stats, reset: None }
    } else {
        metrics.push(Metric::Count(Counter::WriteErrors));
        state.stats.writes_failed = state.stats.writes_failed.wrapping_add(1);
        let reset: Option<SessionReset> = handle_operation_error(state, config, metrics);
        OperationLog { failed: true, missed_recent: false, stats: None, reset }
    }
}

/// How a read ended.
#[derive(Clone, Copy, Debug, PartialEq, Eq, Structural)]
pub enum ReadResult {
    /// With so many rows; none where the answer was not one of rows.
    Answered(Option<usize>),
    Failed,
}

/// What the end of a read means.
#[derive(Clone, Copy, Debug, PartialEq, Eq, Structural)]
pub enum ReadOutcome {
    Found,
    /// No row, for a key that had been written.
    Missed,
    /// No row, where none was expected.
    Absent,
    Failed,
}

/// What the end of a read means.
pub open spec fn read_outcome(source: ReadSource, result: ReadResult) -> ReadOutcome {
    match result {
        ReadResult::Failed => ReadOutcome::Failed,
        ReadResult::Answered(Some(rows)) if rows > 0 => ReadOutcome::Found,
        _ => match source {
            ReadSource::Recent => ReadOutcome::Missed,
            ReadSource::RandomMissProbe => ReadOutcome::Absent,
        },
    }
}

/// What the end of a read means.
pub fn outcome_of(source: ReadSource, result: ReadResult) -> (outcome: ReadOutcome)
    ensures
        outcome == read_outcome(source, result),
{
    match result {
        ReadResult::Failed => ReadOutcome::Failed,
        ReadResult::Answered(rows) => {
            let rows: usize = match rows {
                Some(rows) => rows,
                None => 0,
            };
            if rows > 0 {
                ReadOutcome::Found
            } else {
                match source {
                    ReadSource::Recent => ReadOutcome::Missed,
                    ReadSource::RandomMissProbe => ReadOutcome::Absent,
                }
            }
        },
    }
}

/// A read failed where the statement did; found something where it was answered with
/// at least one row; and else missed a key that had been written, or found none where
/// none was expected.
pub proof fn law_ends_of_reads(source: ReadSource, result: ReadResult, outcome: ReadOutcome)
    requires
        call_ensures(outcome_of, (source, result), outcome),
    ensures
        outcome == ReadOutcome::Failed <==> result is Failed,
        outcome == ReadOutcome::Found <==> (result matches ReadResult::Answered(Some(rows))
            && rows > 0),
        outcome == ReadOutcome::Missed ==> source == ReadSource::Recent,
        outcome == ReadOutcome::Absent ==> source == ReadSource::RandomMissProbe,
        outcome == read_outcome(source, result),
{
}

/// The counts with a read that ended so.
pub open spec fn read_stats(stats: Stats, outcome: ReadOutcome) -> Stats {
    match outcome {
        ReadOutcome::Found => Stats { reads_found: bump(stats.reads_found), ..stats },
        ReadOutcome::Missed => Stats {
            reads_empty: bump(stats.reads_empty),
            reads_failed: bump(stats.reads_failed),
            ..stats
        },
        ReadOutcome::Absent => Stats { reads_empty: bump(stats.reads_empty), ..stats },
        ReadOutcome::Failed => Stats { reads_failed: bump(stats.reads_failed), ..stats },
    }
}

/// The state after a read that ended at the time `now`. A key that had been written
/// and is missed counts as a failed read, but neither as a success of the session
/// nor as a failure of it.
pub open spec fn after_read<C>(
    state: Runtime<C>,
    config: Config,
    source: ReadSource,
    result: ReadResult,
    now: u64,
) -> Runtime<C> {
    let outcome = read_outcome(source, result);
    let counted = Runtime { stats: read_stats(state.stats, outcome), ..state };
    match outcome {
        ReadOutcome::Found | ReadOutcome::Absent => after_success(
            counted,
            config.log_every_n_success,
            now,
        ),
        ReadOutcome::Missed => counted,
        ReadOutcome::Failed => after_error(counted, config.reconnect_after_consecutive_errors),
    }
}

/// The metrics that the end of a read changes.
pub open spec fn read_metrics<C>(
    state: Runtime<C>,
    config: Config,
    source: ReadSource,
    result: ReadResult,
    now: u64,
) -> Seq<Metric> {
    match read_outcome(source, result) {
        ReadOutcome::Found => seq![
            Metric::Count(Counter::Reads(source)),
            Metric::Count(Counter::ReadsFound(source)),
            Metric::LastSuccess(now),
        ],
        ReadOutcome::Missed => seq![
            Metric::Count(Counter::ReadsEmpty(source)),
            Metric::Count(Counter::ReadErrors(source)),
        ],
        ReadOutcome::Absent => seq![
            Metric::Count(Counter::Reads(source)),
            Metric::Count(Counter::ReadsEmpty(source)),
            Metric::LastSuccess(now),
        ],
        ReadOutcome::Failed => seq![Metric::Count(Counter::ReadErrors(source))] + error_metrics(
            state,
            config.reconnect_after_consecutive_errors,
        ),
    }
}

/// What is logged of the end of a read.
pub open spec fn read_log<C>(
    state: Runtime<C>,
    config: Config,
    source: ReadSource,
    result: ReadResult,
    now: u64,
) -> Log {
    let outcome = read_outcome(source, result);
    Log {
        failed: outcome == ReadOutcome::Failed,
        missed_recent: outcome == ReadOutcome::Missed,
        stats: match outcome {
            ReadOutcome::Found | ReadOutcome::Absent => stats_line(
                read_stats(state.stats, outcome),
                config.log_every_n_success,
                now,
            ),
            _ => None,
        },
        reset: if outcome == ReadOutcome::Failed {
            error_reset(state, config.reconnect_after_consecutive_errors)
        } else {
            None
        },
    }
}

/// Takes in the end, at the time `now`, of a read of a key from `source`.
pub fn finish_read<C>(
    state: &mut RuntimeState<C>,
    config: &Config,
    source: ReadSource,
    result: ReadResult,
    now: u64,
    metrics: &mut Vec<Metric>,
) -> (log: OperationLog)
    requires
        match read_outcome(source, result) {
            ReadOutcome::Found | ReadOutcome::Absent => config.log_every_n_success > 0 ==> old(
                state,
            ).stats.successes_since_log < u64::MAX,
            ReadOutcome::Missed => true,
            ReadOutcome::Failed => old(state).consecutive_errors < u64::MAX,
        },
    ensures
        final(state)@ == after_read(old(state)@, *config, source, result, now),
        final(metrics)@ == old(metrics)@ + read_metrics(
            old(state)@,
            *config,
            source,
            result,
            now,
        ),
        log@ == read_log(old(state)@, *config, source, result, now),
{
    match outcome_of(source, result) {
        ReadOutcome::Found => {
            metrics.push(Metric::Count(Counter::Reads(source)));
            metrics.push(Metric::Count(Counter::ReadsFound(source)));
            state.stats.reads_found = state.stats.reads_found.wrapping_add(1);
            mark_success(
                &mut state.last_success_timestamp,
                &mut state.consecutive_errors,
                now,
                metrics,
            );
            let stats: Option<StatsLine> = maybe_log_success(&mut state.stats, config, now);
            OperationLog { failed: false, missed_recent: false, stats, reset: None }
        },
        ReadOutcome::Missed => {
            metrics.push(Metric::Count(Counter::ReadsEmpty(source)));
            state.stats.reads_empty = state.stats.reads_empty.wrapping_add(1);
            metrics.push(Metric::Count(Counter::ReadErrors(source)));
            state.stats.reads_failed = state.stats.reads_failed.wrapping_add(1);
            OperationLog { failed: false, missed_recent: true, stats: None, reset: None }
        },
        ReadOutcome::Absent => {
            metrics.push(Metric::Count(Counter::Reads(source)));
            metrics.push(Metric::Count(Counter::ReadsEmpty(source)));
            state.stats.reads_empty = state.stats.reads_empty.wrapping_add(1);
            mark_success(
                &mut state.last_success_timestamp,
                &mut state.consecutive_errors,
                now,
                metrics,
            );
            let stats: Option<StatsLine> = maybe_log_success(&mut state.stats, config, now);
            OperationLog { failed: false, missed_recent: false, stats, reset: None }
        },
        ReadOutcome::Failed => {
            metrics.push(Metric::Count(Counter::ReadErrors(source)));
            state.stats.reads_failed = state.stats.reads_failed.wrapping_add(1);
            let reset: Option<SessionReset> = handle_operation_error(state, config, metrics);
            OperationLog { failed: true, missed_recent: false, stats: None, reset }
        },
    }
}

} // verus!
