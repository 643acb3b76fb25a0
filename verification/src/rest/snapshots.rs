//! The snapshots of history compatibility mode: how they are fetched and cached, and what is read
//! from them.
use crate::console::{find_member_amount, member_amount};
use crate::keyed_list::{Key, KeyedList};
use crate::rest::cache::{
    bounded, cache_get, cache_new, cache_put, cached, capacity, distinct_keys, holds,
    lemma_touched_distinct, only_the_least_recently_used_leaves, touched, CacheKey, TextCache,
};
use crate::rest::error::{
    error_with, shown, RestError, RestErrorModel, INTERNAL_SERVER_ERROR, NOT_FOUND,
};
use crate::rest::history::{
    answer_error, check_answer, unavailable, unavailable_error, FetchError, FetchErrorModel,
    SnapshotMapping, SNAPSHOT_CACHE_SIZE, STAKING_REWARDS, SUPPORTED_PROGRAM,
};
use crate::text::{
    a_text_occurs_where_it_stands, decimal, decimal_text, equal, occurs, texts,
};
use std::collections::BTreeMap;
use vstd::utf8::encode_utf8;
use vstd::prelude::*;

verus! {

/// Which snapshot is asked for: the height, and a number for what it is of.
#[derive(Clone, Copy, Debug, PartialEq, Eq, Structural)]
pub struct SnapshotKey {
    pub height: u32,
    pub kind: u8,
}

impl Key for SnapshotKey {
    fn same(&self, other: &Self) -> (result: bool) {
        *self == *other
    }
}

impl SnapshotKey {
    /// The key of a snapshot of a mapping.
    pub open spec fn of_mapping(height: u32, mapping: SnapshotMapping) -> SnapshotKey {
        SnapshotKey {
            height,
            kind: match mapping {
                SnapshotMapping::Bonded => 0,
                SnapshotMapping::Delegated => 1,
                SnapshotMapping::Metadata => 2,
                SnapshotMapping::Unbonding => 3,
                SnapshotMapping::Withdraw => 4,
            },
        }
    }

    /// The key of a snapshot of the staking rewards.
    pub open spec fn of_rewards(height: u32) -> SnapshotKey {
        SnapshotKey { height, kind: 5 }
    }

    /// The key in a cache.
    pub open spec fn entry(self) -> CacheKey {
        (self.height as u128, self.kind as u128)
    }

    /// Returns the key of a snapshot of a mapping.
    pub fn mapping(height: u32, mapping: SnapshotMapping) -> (key: Self)
        ensures
            key == SnapshotKey::of_mapping(height, mapping),
    {
        let kind: u8 = match mapping {
            SnapshotMapping::Bonded => 0,
            SnapshotMapping::Delegated => 1,
            SnapshotMapping::Metadata => 2,
            SnapshotMapping::Unbonding => 3,
            SnapshotMapping::Withdraw => 4,
        };
        SnapshotKey { height, kind }
    }

    /// Returns the key of a snapshot of the staking rewards.
    pub fn rewards(height: u32) -> (key: Self)
        ensures
            key == SnapshotKey::of_rewards(height),
    {
        SnapshotKey { height, kind: 5 }
    }
}

/// Different snapshots have different keys.
pub proof fn snapshot_keys_are_distinct(
    height: u32,
    mapping: SnapshotMapping,
    other_height: u32,
    other_mapping: SnapshotMapping,
)
    ensures
        SnapshotKey::of_mapping(height, mapping).entry() == SnapshotKey::of_mapping(
            other_height,
            other_mapping,
        ).entry() ==> height == other_height && mapping == other_mapping,
        SnapshotKey::of_mapping(height, mapping).entry() != SnapshotKey::of_rewards(
            other_height,
        ).entry(),
        SnapshotKey::of_rewards(height).entry() == SnapshotKey::of_rewards(other_height).entry()
            ==> height == other_height,
{
}

/// What a cache of snapshots holds: the snapshots, the most recently used first, and for each
/// snapshot that is being fetched the ticket of its flight.
#[verifier::ext_equal]
pub struct SnapshotCacheModel {
    pub snapshots: Seq<(CacheKey, Seq<char>)>,
    pub in_flight: Map<SnapshotKey, u64>,
}

impl SnapshotCacheModel {
    /// The cache that holds nothing.
    pub open spec fn empty() -> SnapshotCacheModel {
        SnapshotCacheModel { snapshots: Seq::empty(), in_flight: Map::empty() }
    }

    /// Whether the cache holds a snapshot.
    pub open spec fn has(self, key: SnapshotKey) -> bool {
        holds(self.snapshots, key.entry())
    }

    /// The flight that a request for a snapshot joins, which is a new one with the given ticket if
    /// there is none.
    pub open spec fn flight(self, key: SnapshotKey, ticket: u64) -> u64 {
        if self.in_flight.contains_key(key) {
            self.in_flight[key]
        } else {
            ticket
        }
    }

    /// The cache after a request has joined a flight.
    pub open spec fn joined(self, key: SnapshotKey, ticket: u64) -> SnapshotCacheModel {
        SnapshotCacheModel {
            in_flight: self.in_flight.insert(key, self.flight(key, ticket)),
            ..self
        }
    }

    /// The cache after a flight is over, whether it has landed or was cancelled.
    pub open spec fn landed(self, key: SnapshotKey, ticket: u64) -> SnapshotCacheModel {
        SnapshotCacheModel {
            in_flight: if self.in_flight.contains_key(key) && self.in_flight[key] == ticket {
                self.in_flight.remove(key)
            } else {
                self.in_flight
            },
            ..self
        }
    }

    /// The cache after a snapshot was put into it.
    pub open spec fn stored(self, key: SnapshotKey, snapshot: Seq<char>) -> SnapshotCacheModel {
        SnapshotCacheModel {
            snapshots: bounded(
                touched(self.snapshots, key.entry(), snapshot),
                SNAPSHOT_CACHE_SIZE as nat,
            ),
            ..self
        }
    }

    /// The cache after a flight has landed with an outcome. Only a snapshot is kept, not a failure.
    pub open spec fn completed(
        self,
        key: SnapshotKey,
        ticket: u64,
        outcome: Result<Seq<char>, FetchErrorModel>,
    ) -> SnapshotCacheModel {
        match outcome {
            Ok(snapshot) => self.stored(key, snapshot).landed(key, ticket),
            Err(_) => self.landed(key, ticket),
        }
    }
}

/// What a request for a snapshot is to do.
#[derive(Debug)]
pub enum Lookup {
    /// Answer with the snapshot.
    Cached(String),
    /// Wait for the flight with the ticket: for its outcome, or for its turn to perform the fetch.
    Join(u64),
}

/// What a request does that has waited for its turn in a flight.
#[derive(Debug)]
pub enum Turn {
    /// Answer with the outcome of the fetch, which another request has performed.
    Shared(Result<String, FetchError>),
    /// Perform the fetch.
    Fetch,
}

/// The content of the outcome of a fetch.
pub open spec fn outcome_content(outcome: Result<String, FetchError>) -> Result<
    Seq<char>,
    FetchErrorModel,
> {
    match outcome {
        Ok(snapshot) => Ok(snapshot@),
        Err(error) => Err(error@),
    }
}

/// Returns a copy of the outcome of a fetch.
pub fn copy_outcome(outcome: &Result<String, FetchError>) -> (copy: Result<String, FetchError>)
    ensures
        outcome_content(copy) == outcome_content(*outcome),
{
    match outcome {
        Ok(snapshot) => Ok(snapshot.clone()),
        Err(error) => Err(error.copy()),
    }
}

/// Decides what a request does that has waited for its turn in a flight, by the outcome of the
/// flight as far as there is one.
pub fn take_turn(outcome: &Option<Result<String, FetchError>>) -> (turn: Turn)
    ensures
        match outcome {
            Some(outcome) => turn matches Turn::Shared(shared) && outcome_content(shared)
                == outcome_content(*outcome),
            None => turn is Fetch,
        },
{
    match outcome {
        Some(outcome) => Turn::Shared(copy_outcome(outcome)),
        None => Turn::Fetch,
    }
}

/// A cache of snapshots with single-flight fetching: concurrent requests for one key share one
/// upstream request, and its outcome -- success or failure.
pub struct SnapshotCache {
    snapshots: TextCache,
    in_flight: KeyedList<SnapshotKey, u64>,
}

impl View for SnapshotCache {
    type V = SnapshotCacheModel;

    closed spec fn view(&self) -> SnapshotCacheModel {
        SnapshotCacheModel { snapshots: cached(self.snapshots), in_flight: self.in_flight@ }
    }
}

impl SnapshotCache {
    /// The cache has the capacity of a snapshot cache, and holds no snapshot and no flight twice.
    pub closed spec fn wf(&self) -> bool {
        &&& capacity(self.snapshots) == SNAPSHOT_CACHE_SIZE
        &&& distinct_keys(cached(self.snapshots))
        &&& self.in_flight.wf()
    }

    /// Initializes a cache that holds nothing.
    pub fn new() -> (cache: Self)
        ensures
            cache.wf(),
            cache@ == SnapshotCacheModel::empty(),
    {
        SnapshotCache { snapshots: cache_new(SNAPSHOT_CACHE_SIZE), in_flight: KeyedList::new() }
    }

    /// Begins a request for a snapshot: finds it in the cache, or joins its flight. The given ticket
    /// is that of the flight if the request starts one.
    pub fn begin(&mut self, key: SnapshotKey, ticket: u64) -> (lookup: Lookup)
        requires
            old(self).wf(),
        ensures
            final(self).wf(),
            match lookup {
                Lookup::Cached(snapshot) => {
                    &&& old(self)@.snapshots.contains((key.entry(), snapshot@))
                    &&& final(self)@ == (SnapshotCacheModel {
                        snapshots: touched(old(self)@.snapshots, key.entry(), snapshot@),
                        ..old(self)@
                    })
                },
                Lookup::Join(flight) => {
                    &&& !old(self)@.has(key)
                    &&& flight == old(self)@.flight(key, ticket)
                    &&& final(self)@ == old(self)@.joined(key, ticket)
                },
            },
    {
        let entry: CacheKey = (key.height as u128, key.kind as u128);
        if let Some(snapshot) = cache_get(&mut self.snapshots, &entry) {
            proof {
                lemma_touched_distinct(old(self)@.snapshots, entry, snapshot@, 0);
            }
            return Lookup::Cached(snapshot);
        }
        let joined: Option<u64> = match self.in_flight.get(&key) {
            Some(flight) => Some(*flight),
            None => None,
        };
        match joined {
            Some(flight) => {
                assert(self@.in_flight =~= self@.in_flight.insert(key, flight));
                Lookup::Join(flight)
            },
            None => {
                let _ = self.in_flight.insert(key, ticket);
                Lookup::Join(ticket)
            },
        }
    }

    /// Removes a flight when the request performing its fetch is done with it -- also when that
    /// request is cancelled, so that a later request starts a fresh fetch. Another flight for the
    /// key stays.
    pub fn land(&mut self, key: SnapshotKey, ticket: u64)
        requires
            old(self).wf(),
        ensures
            final(self).wf(),
            final(self)@ == old(self)@.landed(key, ticket),
    {
        let ours: bool = match self.in_flight.get(&key) {
            Some(flight) => *flight == ticket,
            None => false,
        };
        if ours {
            let _ = self.in_flight.remove(&key);
        }
    }

    /// Ends the flight with the ticket with an outcome, which is cached if it is a snapshot.
    pub fn complete(&mut self, key: SnapshotKey, ticket: u64, outcome: &Result<String, FetchError>)
        requires
            old(self).wf(),
        ensures
            final(self).wf(),
            final(self)@ == old(self)@.completed(key, ticket, outcome_content(*outcome)),
    {
        if let Ok(snapshot) = outcome {
            let entry: CacheKey = (key.height as u128, key.kind as u128);
            proof {
                lemma_touched_distinct(
                    self@.snapshots,
                    entry,
                    snapshot@,
                    SNAPSHOT_CACHE_SIZE as nat,
                );
            }
            cache_put(&mut self.snapshots, entry, snapshot.clone());
        }
        self.land(key, ticket);
    }
}

/// As long as a snapshot is in flight and not cached, every request for it joins the one flight,
/// whatever its own ticket: there is one fetch.
pub proof fn concurrent_requests_share_one_flight(
    cache: SnapshotCacheModel,
    key: SnapshotKey,
    first: u64,
    second: u64,
)
    ensures
        cache.joined(key, first).flight(key, second) == cache.flight(key, first),
        cache.joined(key, first).joined(key, second) == cache.joined(key, first),
{
    assert(cache.joined(key, first).joined(key, second) =~= cache.joined(key, first));
}

/// Requests for one snapshot do not touch the flights of others.
pub proof fn flights_are_independent(
    cache: SnapshotCacheModel,
    key: SnapshotKey,
    other: SnapshotKey,
    ticket: u64,
    other_ticket: u64,
    outcome: Result<Seq<char>, FetchErrorModel>,
)
    requires
        key != other,
    ensures
        cache.joined(key, ticket).flight(other, other_ticket) == cache.flight(other, other_ticket),
        cache.completed(key, ticket, outcome).flight(other, other_ticket) == cache.flight(
            other,
            other_ticket,
        ),
{
}

/// A flight that lands leaves no flight behind, and a snapshot that it brings is cached.
pub proof fn a_landed_flight_is_gone(
    cache: SnapshotCacheModel,
    key: SnapshotKey,
    ticket: u64,
    outcome: Result<Seq<char>, FetchErrorModel>,
)
    requires
        cache.in_flight.contains_key(key) ==> cache.in_flight[key] == ticket,
    ensures
        !cache.completed(key, ticket, outcome).in_flight.contains_key(key),
        outcome matches Ok(snapshot) ==> cache.completed(key, ticket, outcome).snapshots.contains(
            (key.entry(), snapshot),
        ),
{
    if let Ok(snapshot) = outcome {
        let snapshots = bounded(
            touched(cache.snapshots, key.entry(), snapshot),
            SNAPSHOT_CACHE_SIZE as nat,
        );
        assert(snapshots[0] == (key.entry(), snapshot));
    }
}

/// A failure is not cached: the next request for the snapshot starts a flight of its own.
pub proof fn a_failure_is_not_cached(
    cache: SnapshotCacheModel,
    key: SnapshotKey,
    ticket: u64,
    error: FetchErrorModel,
    next: u64,
)
    requires
        cache.in_flight.contains_key(key) ==> cache.in_flight[key] == ticket,
    ensures
        cache.completed(key, ticket, Err(error)).snapshots == cache.snapshots,
        cache.completed(key, ticket, Err(error)).flight(key, next) == next,
{
}

/// A cancelled fetch leaves no flight behind: the next request starts a flight of its own.
pub proof fn a_cancelled_fetch_leaves_no_flight_behind(
    cache: SnapshotCacheModel,
    key: SnapshotKey,
    ticket: u64,
    next: u64,
)
    requires
        !cache.in_flight.contains_key(key),
    ensures
        cache.joined(key, ticket).landed(key, ticket) == cache,
        cache.joined(key, ticket).landed(key, ticket).flight(key, next) == next,
{
    assert(cache.joined(key, ticket).landed(key, ticket) =~= cache);
}

/// The rows of a snapshot of a mapping: its keys and values, as they are printed.
pub open spec fn row_contents(rows: Seq<(String, String)>) -> Seq<(Seq<char>, Seq<char>)> {
    rows.map_values(|row: (String, String)| (row.0@, row.1@))
}

/// The rows that a JSON text holds, each a key and a value, or the error of reading it.
pub uninterp spec fn mapping_rows(body: Seq<u8>) -> Result<Seq<(Seq<char>, Seq<char>)>, Seq<char>>;

/// `serde_json::from_slice`, for a list of keys and values.
#[verifier::external_body]
fn parse_mapping_rows(body: &[u8]) -> (parsed: Result<Vec<(String, String)>, String>)
    ensures
        match parsed {
            Ok(rows) => mapping_rows(body@) == Ok::<Seq<(Seq<char>, Seq<char>)>, Seq<char>>(
                row_contents(rows@),
            ),
            Err(error) => mapping_rows(body@) == Err::<Seq<(Seq<char>, Seq<char>)>, Seq<char>>(
                error@,
            ),
        },
{
    serde_json::from_slice(body).map_err(|error| error.to_string())
}

/// The rows of the staking rewards that a JSON text holds, by their stakers, or the error of reading
/// it.
pub uninterp spec fn reward_rows(body: Seq<u8>) -> Result<
    Seq<(Seq<char>, (Seq<char>, u64))>,
    Seq<char>,
>;

/// `serde_json::from_slice`, for an object of stakers with their validators and rewards.
#[verifier::external_body]
fn parse_reward_rows(body: &[u8]) -> (parsed: Result<Vec<(String, (String, u64))>, String>)
    ensures
        match parsed {
            Ok(rows) => reward_rows(body@) == Ok::<Seq<(Seq<char>, (Seq<char>, u64))>, Seq<char>>(
                reward_contents(rows@),
            ),
            Err(error) => reward_rows(body@) == Err::<
                Seq<(Seq<char>, (Seq<char>, u64))>,
                Seq<char>,
            >(error@),
        },
{
    serde_json::from_slice::<BTreeMap<String, (String, u64)>>(body)
        .map(|rows| rows.into_iter().collect())
        .map_err(|error| error.to_string())
}

/// What comes of an answer of the upstream, by what was read from its body.
pub open spec fn snapshot_from<T>(
    error: Option<FetchErrorModel>,
    url: Seq<char>,
    read: Result<T, Seq<char>>,
) -> Result<T, FetchErrorModel> {
    match (error, read) {
        (Some(error), _) => Err(error),
        (None, Ok(snapshot)) => Ok(snapshot),
        (None, Err(message)) => Err(unavailable_error(url, message)),
    }
}

/// Returns what was read from the body of an answer of the upstream, or the error of a body that is
/// no snapshot.
pub fn parsed_snapshot<T>(url: &str, read: Result<T, String>) -> (result: Result<T, FetchError>)
    ensures
        match read {
            Ok(snapshot) => result == Ok::<T, FetchError>(snapshot),
            Err(message) => result matches Err(error) && error@ == unavailable_error(
                url@,
                message@,
            ),
        },
{
    match read {
        Ok(snapshot) => Ok(snapshot),
        Err(message) => Err(unavailable(url, message.as_str())),
    }
}

/// Reads the snapshot of a mapping from an answer of the upstream.
pub fn read_mapping(
    url: &str,
    height: u32,
    mapping: SnapshotMapping,
    status: u16,
    body: &Vec<u8>,
) -> (result: Result<Vec<(String, String)>, FetchError>)
    requires
        100 <= status <= 999,
    ensures
        snapshot_from(
            answer_error(url@, height, mapping.named(), status, body@),
            url@,
            mapping_rows(body@),
        ) == (match result {
            Ok(rows) => Ok(row_contents(rows@)),
            Err(error) => Err(error@),
        }),
{
    match check_answer(url, height, mapping.name(), status, body) {
        Ok(()) => parsed_snapshot(url, parse_mapping_rows(body.as_slice())),
        Err(error) => Err(error),
    }
}

/// Reads the snapshot of the staking rewards from an answer of the upstream.
pub fn read_staking_rewards(url: &str, height: u32, status: u16, body: &Vec<u8>) -> (result: Result<
    Vec<(String, (String, u64))>,
    FetchError,
>)
    requires
        100 <= status <= 999,
    ensures
        snapshot_from(
            answer_error(url@, height, STAKING_REWARDS@, status, body@),
            url@,
            reward_rows(body@),
        ) == (match result {
            Ok(rows) => Ok(reward_contents(rows@)),
            Err(error) => Err(error@),
        }),
{
    match check_answer(url, height, STAKING_REWARDS, status, body) {
        Ok(()) => parsed_snapshot(url, parse_reward_rows(body.as_slice())),
        Err(error) => Err(error),
    }
}

/// Reads the rows of a mapping from a snapshot that is cached.
pub fn cached_mapping(snapshot: &str) -> (result: Result<Vec<(String, String)>, String>)
    ensures
        mapping_rows(encode_utf8(snapshot@)) == (match result {
            Ok(rows) => Ok::<Seq<(Seq<char>, Seq<char>)>, Seq<char>>(row_contents(rows@)),
            Err(error) => Err(error@),
        }),
{
    parse_mapping_rows(snapshot.as_bytes())
}

/// Reads the rows of the staking rewards from a snapshot that is cached.
pub fn cached_staking_rewards(snapshot: &str) -> (result: Result<
    Vec<(String, (String, u64))>,
    String,
>)
    ensures
        reward_rows(encode_utf8(snapshot@)) == (match result {
            Ok(rows) => Ok::<Seq<(Seq<char>, (Seq<char>, u64))>, Seq<char>>(reward_contents(rows@)),
            Err(error) => Err(error@),
        }),
{
    parse_reward_rows(snapshot.as_bytes())
}

/// The value for a key: that of the last row for it.
pub open spec fn value_in<V>(rows: Seq<(Seq<char>, V)>, key: Seq<char>) -> Option<V>
    decreases rows.len(),
{
    if rows.len() == 0 {
        None
    } else if rows.last().0 == key {
        Some(rows.last().1)
    } else {
        value_in(rows.drop_last(), key)
    }
}

/// The content of an optional text.
pub open spec fn text_content(text: Option<String>) -> Option<Seq<char>> {
    match text {
        Some(text) => Some(text@),
        None => None,
    }
}

/// Returns the value for a key of a mapping, given as it is printed, or `None` if the key was not in
/// the mapping.
pub fn snapshot_value(rows: &Vec<(String, String)>, key: &str) -> (value: Option<String>)
    ensures
        text_content(value) == value_in(row_contents(rows@), key@),
        match value {
            Some(value) => exists|i: int|
                {
                    &&& 0 <= i < rows.len()
                    &&& (#[trigger] rows[i]).0@ == key@
                    &&& rows[i].1@ == value@
                    &&& forall|j: int| i < j < rows.len() ==> (#[trigger] rows[j]).0@ != key@
                },
            None => forall|i: int| 0 <= i < rows.len() ==> (#[trigger] rows[i]).0@ != key@,
        },
{
    let ghost contents = row_contents(rows@);
    let mut len: usize = rows.len();
    assert(contents.take(len as int) =~= contents);
    while len > 0
        invariant
            len <= rows@.len(),
            contents == row_contents(rows@),
            value_in(contents.take(len as int), key@) == value_in(contents, key@),
            forall|j: int| len <= j < rows.len() ==> (#[trigger] rows[j]).0@ != key@,
        decreases len,
    {
        let row = &rows[len - 1];
        assert(contents.take(len as int).last() == (row.0@, row.1@));
        assert(contents.take(len as int).drop_last() =~= contents.take(len - 1));
        if equal(row.0.as_str(), key) {
            return Some(row.1.clone());
        }
        len = len - 1;
    }
    None
}

/// Returns the value for each key of a list: the key as the client spelled it, with the value for
/// the key as it is printed.
pub fn snapshot_values(
    rows: &Vec<(String, String)>,
    keys: &Vec<String>,
    printed: &Vec<String>,
) -> (values: Vec<(String, Option<String>)>)
    requires
        keys.len() == printed.len(),
    ensures
        values.len() == keys.len(),
        forall|i: int|
            0 <= i < keys.len() ==> {
                &&& (#[trigger] values[i]).0@ == keys[i]@
                &&& text_content(values[i].1) == value_in(row_contents(rows@), printed[i]@)
            },
{
    let mut values: Vec<(String, Option<String>)> = Vec::new();
    for i in 0..keys.len()
        invariant
            keys.len() == printed.len(),
            values.len() == i,
            forall|j: int|
                0 <= j < i ==> {
                    &&& (#[trigger] values[j]).0@ == keys[j]@
                    &&& text_content(values[j].1) == value_in(row_contents(rows@), printed[j]@)
                },
    {
        let value = snapshot_value(rows, printed[i].as_str());
        values.push((keys[i].clone(), value));
    }
    values
}

/// The rows of a snapshot of the staking rewards: each staker with its validator and its reward.
pub open spec fn reward_contents(rows: Seq<(String, (String, u64))>) -> Seq<
    (Seq<char>, (Seq<char>, u64)),
> {
    rows.map_values(|row: (String, (String, u64))| (row.0@, (row.1.0@, row.1.1)))
}

/// The content of an optional reward.
pub open spec fn reward_content(reward: Option<(String, u64)>) -> Option<(Seq<char>, u64)> {
    match reward {
        Some((validator, amount)) => Some((validator@, amount)),
        None => None,
    }
}

/// Returns the reward of a staker, its validator and the amount, or `None` if it received none.
pub fn reward_of(rows: &Vec<(String, (String, u64))>, staker: &str) -> (reward: Option<
    (String, u64),
>)
    ensures
        reward_content(reward) == value_in(reward_contents(rows@), staker@),
        match reward {
            Some((validator, amount)) => exists|i: int|
                {
                    &&& 0 <= i < rows.len()
                    &&& (#[trigger] rows[i]).0@ == staker@
                    &&& rows[i].1.0@ == validator@
                    &&& rows[i].1.1 == amount
                    &&& forall|j: int| i < j < rows.len() ==> (#[trigger] rows[j]).0@ != staker@
                },
            None => forall|i: int| 0 <= i < rows.len() ==> (#[trigger] rows[i]).0@ != staker@,
        },
{
    let ghost contents = reward_contents(rows@);
    let mut len: usize = rows.len();
    assert(contents.take(len as int) =~= contents);
    while len > 0
        invariant
            len <= rows@.len(),
            contents == reward_contents(rows@),
            value_in(contents.take(len as int), staker@) == value_in(contents, staker@),
            forall|j: int| len <= j < rows.len() ==> (#[trigger] rows[j]).0@ != staker@,
        decreases len,
    {
        let row = &rows[len - 1];
        assert(contents.take(len as int).last() == (row.0@, (row.1.0@, row.1.1)));
        assert(contents.take(len as int).drop_last() =~= contents.take(len - 1));
        if equal(row.0.as_str(), staker) {
            return Some((row.1.0.clone(), row.1.1));
        }
        len = len - 1;
    }
    None
}

/// The error for a reward without a bonded stake.
pub open spec fn no_bonded_stake(staker: Seq<char>, height: u32) -> RestErrorModel {
    error_with(
        NOT_FOUND,
        "The upstream records a reward for "@ + staker + " at block "@ + decimal(height as nat)
            + " but no bonded stake"@,
    )
}

/// The stake after a reward, by the amount that was found in the staker's bonded entry.
pub open spec fn stake_from(
    amount: Result<Result<u64, Seq<char>>, Seq<Seq<char>>>,
) -> Result<u64, RestErrorModel> {
    match amount {
        Ok(Ok(microcredits)) => Ok(microcredits),
        Ok(Err(other)) => Err(
            error_with(INTERNAL_SERVER_ERROR, "Unexpected bonded stake: "@ + other),
        ),
        Err(chain) => Err(RestErrorModel { status: INTERNAL_SERVER_ERROR, chain }),
    }
}

/// The stake of a staker after a reward, by the snapshot of the bonded stakes.
pub open spec fn stake_after(
    bonded: Seq<(Seq<char>, Seq<char>)>,
    staker: Seq<char>,
    height: u32,
) -> Result<u64, RestErrorModel> {
    match value_in(bonded, staker) {
        Some(entry) => stake_from(member_amount(entry, "microcredits"@)),
        None => Err(no_bonded_stake(staker, height)),
    }
}

/// The content of a stake, or of the error in its place.
pub open spec fn stake_content(stake: Result<u64, RestError>) -> Result<u64, RestErrorModel> {
    match stake {
        Ok(amount) => Ok(amount),
        Err(error) => Err(error@),
    }
}

/// Returns the stake after a reward, by the amount that was found in the staker's bonded entry: a
/// `u64`, another value as it is printed, or the errors of finding it.
pub fn bonded_stake(amount: Result<Result<u64, String>, Vec<String>>) -> (stake: Result<u64, RestError>)
    ensures
        stake_content(stake) == stake_from(
            match amount {
                Ok(Ok(microcredits)) => Ok(Ok(microcredits)),
                Ok(Err(other)) => Ok(Err(other@)),
                Err(chain) => Err(texts(chain@)),
            },
        ),
{
    match amount {
        Ok(Ok(microcredits)) => Ok(microcredits),
        Ok(Err(other)) => {
            let mut message = "Unexpected bonded stake: ".to_owned();
            message.append(other.as_str());
            Err(RestError::new(INTERNAL_SERVER_ERROR, message))
        },
        Err(chain) => Err(RestError { status: INTERNAL_SERVER_ERROR, chain }),
    }
}

/// Returns the stake of a staker after a reward. The upstream records the bonded stakes after
/// applying the rewards of a block, so it is the `microcredits` of the staker's bonded entry at the
/// same height.
pub fn new_stake(bonded: &Vec<(String, String)>, staker: &str, height: u32) -> (stake: Result<
    u64,
    RestError,
>)
    ensures
        stake_content(stake) == stake_after(row_contents(bonded@), staker@, height),
{
    match snapshot_value(bonded, staker) {
        Some(entry) => bonded_stake(find_member_amount(entry.as_str(), "microcredits")),
        None => {
            let mut message = "The upstream records a reward for ".to_owned();
            message.append(staker);
            message.append(" at block ");
            message.append(decimal_text(height as u64).as_str());
            message.append(" but no bonded stake");
            Err(RestError::new(NOT_FOUND, message))
        },
    }
}

/// The error for a mapping that the upstream does not record.
pub open spec fn mapping_not_recorded(program_id: Seq<char>, mapping_name: Seq<char>) -> RestErrorModel {
    error_with(
        NOT_FOUND,
        "History compatibility mode serves only the mappings [\"bonded\", \"delegated\", \"metadata\", \"unbonding\", \"withdraw\"] of 'credits.aleo'; '"@
            + program_id + "/"@ + mapping_name + "' is not available"@,
    )
}

/// Resolves a `/history/` route's program and mapping to the upstream snapshot that serves it in
/// history compatibility mode.
///
/// Any other mapping, of this or another program, is answered with a 404 that names what is
/// available rather than being forwarded.
pub fn history_compat_mapping(program_id: &str, mapping_name: &str) -> (result: Result<
    SnapshotMapping,
    RestError,
>)
    ensures
        match result {
            Ok(mapping) => program_id@ == SUPPORTED_PROGRAM@ && mapping.named() == mapping_name@,
            Err(error) => {
                &&& program_id@ != SUPPORTED_PROGRAM@ || forall|mapping: SnapshotMapping|
                    #[trigger] mapping.named() != mapping_name@
                &&& error@ == mapping_not_recorded(program_id@, mapping_name@)
            },
        },
{
    let mapping: Option<SnapshotMapping> = if equal(program_id, SUPPORTED_PROGRAM) {
        SnapshotMapping::from_name(mapping_name)
    } else {
        None
    };
    match mapping {
        Some(mapping) => Ok(mapping),
        None => {
            let mut message =
                "History compatibility mode serves only the mappings [\"bonded\", \"delegated\", \"metadata\", \"unbonding\", \"withdraw\"] of 'credits.aleo'; '".to_owned();
            message.append(program_id);
            message.append("/");
            message.append(mapping_name);
            message.append("' is not available");
            Err(RestError::new(NOT_FOUND, message))
        },
    }
}

/// Returns the error for a view at a past height, which cannot be served: the snapshots are not
/// enough state to evaluate an arbitrary view. It points at the route for the latest height.
pub fn evaluate_view_at_height_compat(program_id: &str, view_name: &str, height: u32) -> (error:
    RestError)
    ensures
        error@ == error_with(
            NOT_FOUND,
            "History compatibility mode cannot evaluate '"@ + program_id@ + "/"@ + view_name@
                + "' at height "@ + decimal(height as nat)
                + ": views at a past height are not available; use POST /program/"@ + program_id@
                + "/view/"@ + view_name@ + " for the latest height"@,
        ),
{
    let mut message = "History compatibility mode cannot evaluate '".to_owned();
    message.append(program_id);
    message.append("/");
    message.append(view_name);
    message.append("' at height ");
    message.append(decimal_text(height as u64).as_str());
    message.append(": views at a past height are not available; use POST /program/");
    message.append(program_id);
    message.append("/view/");
    message.append(view_name);
    message.append(" for the latest height");
    RestError::new(NOT_FOUND, message)
}

/// The value for the key of a row is that of the row, if no later row has the key, wherever among the
/// rows it stands.
pub proof fn the_last_row_for_a_key_gives_its_value<V>(rows: Seq<(Seq<char>, V)>, i: int)
    requires
        0 <= i < rows.len(),
        forall|j: int| i < j < rows.len() ==> (#[trigger] rows[j]).0 != rows[i].0,
    ensures
        value_in(rows, rows[i].0) == Some(rows[i].1),
    decreases rows.len(),
{
    if i < rows.len() - 1 {
        let front = rows.drop_last();
        assert(rows[rows.len() - 1].0 != rows[i].0);
        assert(front[i] == rows[i]);
        assert forall|j: int| i < j < front.len() implies (#[trigger] front[j]).0 != front[i].0 by {
            assert(front[j] == rows[j]);
        }
        the_last_row_for_a_key_gives_its_value(front, i);
    }
}

/// There is no value for a key exactly if no row has it.
pub proof fn a_key_has_no_value_exactly_if_no_row_has_it<V>(
    rows: Seq<(Seq<char>, V)>,
    key: Seq<char>,
)
    ensures
        value_in(rows, key) is None <==> forall|i: int|
            0 <= i < rows.len() ==> (#[trigger] rows[i]).0 != key,
    decreases rows.len(),
{
    if rows.len() > 0 {
        let front = rows.drop_last();
        a_key_has_no_value_exactly_if_no_row_has_it(front, key);
        if rows.last().0 == key {
            assert(rows[rows.len() - 1].0 == key);
        } else if value_in(front, key) is None {
            assert forall|i: int| 0 <= i < rows.len() implies (#[trigger] rows[i]).0 != key by {
                if i < front.len() {
                    assert(front[i] == rows[i]);
                }
            }
        } else {
            let i = choose|i: int| 0 <= i < front.len() && (#[trigger] front[i]).0 == key;
            assert(rows[i].0 == key);
        }
    }
}

/// The content of each row stands at its place, its key before its value.
pub proof fn rows_are_read_as_they_stand(
    rows: Seq<(String, String)>,
    rewards: Seq<(String, (String, u64))>,
)
    ensures
        row_contents(rows).len() == rows.len(),
        forall|i: int|
            0 <= i < rows.len() ==> (#[trigger] row_contents(rows)[i]).0 == rows[i].0@
                && row_contents(rows)[i].1 == rows[i].1@,
        reward_contents(rewards).len() == rewards.len(),
        forall|i: int|
            0 <= i < rewards.len() ==> {
                &&& (#[trigger] reward_contents(rewards)[i]).0 == rewards[i].0@
                &&& reward_contents(rewards)[i].1.0 == rewards[i].1.0@
                &&& reward_contents(rewards)[i].1.1 == rewards[i].1.1
            },
{
}

/// The contents of what is found, of an outcome and of a stake tell apart what differs in them.
pub proof fn contents_tell_what_is_found(
    text: Option<String>,
    reward: Option<(String, u64)>,
    outcome: Result<String, FetchError>,
    stake: Result<u64, RestError>,
)
    ensures
        text_content(text) is None <==> text is None,
        text matches Some(found) ==> text_content(text) == Some(found@),
        reward_content(reward) is None <==> reward is None,
        reward matches Some(found) ==> reward_content(reward) == Some((found.0@, found.1)),
        outcome matches Ok(snapshot) ==> outcome_content(outcome) == Ok::<
            Seq<char>,
            FetchErrorModel,
        >(snapshot@),
        outcome matches Err(error) ==> outcome_content(outcome) == Err::<
            Seq<char>,
            FetchErrorModel,
        >(error@),
        stake matches Ok(amount) ==> stake_content(stake) == Ok::<u64, RestErrorModel>(amount),
        stake matches Err(error) ==> stake_content(stake) == Err::<u64, RestErrorModel>(error@),
{
}

/// The stake after a reward is the amount of microcredits in the staker's last bonded entry. A staker
/// without an entry is not found, and an entry without such an amount is a fault.
pub proof fn the_stake_is_that_of_the_bonded_entry(
    bonded: Seq<(Seq<char>, Seq<char>)>,
    height: u32,
    staker: Seq<char>,
    i: int,
)
    requires
        0 <= i < bonded.len(),
        bonded[i].0 == staker,
        forall|j: int| i < j < bonded.len() ==> (#[trigger] bonded[j]).0 != staker,
    ensures
        ({
            let found = member_amount(bonded[i].1, "microcredits"@);
            let stake = stake_after(bonded, staker, height);
            &&& forall|amount: u64|
                found == Ok::<Result<u64, Seq<char>>, Seq<Seq<char>>>(Ok(amount)) <==> stake == Ok::<
                    u64,
                    RestErrorModel,
                >(amount)
            &&& stake matches Err(error) ==> error.status == 500
            &&& found matches Err(chain) ==> stake->Err_0.chain == chain
            &&& found matches Ok(Err(other)) ==> other.is_suffix_of(shown(stake->Err_0.chain))
        }),
{
    the_last_row_for_a_key_gives_its_value(bonded, i);
    let found = member_amount(bonded[i].1, "microcredits"@);
    if let Ok(Err(other)) = found {
        let message = "Unexpected bonded stake: "@ + other;
        assert(message.subrange(message.len() - other.len(), message.len() as int) =~= other);
    }
}

/// A staker without a bonded entry is not found, by its name and the height.
pub proof fn a_staker_without_a_bonded_entry_is_not_found(
    bonded: Seq<(Seq<char>, Seq<char>)>,
    height: u32,
    staker: Seq<char>,
)
    requires
        forall|i: int| 0 <= i < bonded.len() ==> (#[trigger] bonded[i]).0 != staker,
    ensures
        stake_after(bonded, staker, height) matches Err(error) && error.status == 404 && occurs(
            shown(error.chain),
            staker + " at block "@ + decimal(height as nat),
        ),
{
    a_key_has_no_value_exactly_if_no_row_has_it(bonded, staker);
    let part = staker + " at block "@ + decimal(height as nat);
    let message = no_bonded_stake(staker, height).chain[0];
    assert(message =~= "The upstream records a reward for "@ + part + " but no bonded stake"@);
    a_text_occurs_where_it_stands(
        "The upstream records a reward for "@,
        part,
        " but no bonded stake"@,
    );
}

/// A mapping that is not served is not found, by its program and its name.
pub proof fn a_mapping_that_is_not_served_is_not_found(
    program_id: Seq<char>,
    mapping_name: Seq<char>,
)
    ensures
        mapping_not_recorded(program_id, mapping_name).status == 404,
        mapping_not_recorded(program_id, mapping_name).chain.len() == 1,
        (program_id + "/"@ + mapping_name + "' is not available"@).is_suffix_of(
            mapping_not_recorded(program_id, mapping_name).chain[0],
        ),
{
    let end = program_id + "/"@ + mapping_name + "' is not available"@;
    let message = mapping_not_recorded(program_id, mapping_name).chain[0];
    assert(message.subrange(message.len() - end.len(), message.len() as int) =~= end);
}

/// A request that finds its snapshot neither cached nor in flight starts a flight with its own
/// ticket; a flight is ended by its own ticket alone; and neither changes what is cached.
pub proof fn a_flight_is_ended_by_its_own_ticket_alone(
    cache: SnapshotCacheModel,
    key: SnapshotKey,
    ticket: u64,
    other: u64,
)
    ensures
        !cache.in_flight.contains_key(key) ==> cache.flight(key, ticket) == ticket,
        cache.in_flight.contains_key(key) ==> cache.flight(key, ticket) == cache.in_flight[key],
        cache.joined(key, ticket).in_flight.contains_key(key),
        cache.joined(key, ticket).snapshots == cache.snapshots,
        cache.landed(key, ticket).snapshots == cache.snapshots,
        cache.in_flight.contains_key(key) && cache.in_flight[key] == other && other != ticket
            ==> cache.landed(key, ticket) == cache,
        SnapshotCacheModel::empty().snapshots.len() == 0,
        !SnapshotCacheModel::empty().in_flight.contains_key(key),
{
    if cache.in_flight.contains_key(key) && cache.in_flight[key] == other && other != ticket {
        assert(cache.landed(key, ticket) =~= cache);
    }
}

/// A cached snapshot is known by its own key: the cache has a snapshot exactly if an entry has the
/// height and the kind of it.
pub proof fn a_snapshot_is_cached_under_its_own_key(
    cache: SnapshotCacheModel,
    key: SnapshotKey,
    ticket: u64,
    snapshot: Seq<char>,
)
    ensures
        cache.has(key) <==> exists|i: int|
            0 <= i < cache.snapshots.len() && (#[trigger] cache.snapshots[i]).0.0 == key.height
                && cache.snapshots[i].0.1 == key.kind,
        cache.completed(key, ticket, Ok(snapshot)).has(key),
        cache.completed(key, ticket, Ok(snapshot)).snapshots[0].1 == snapshot,
{
    let after = cache.completed(key, ticket, Ok(snapshot));
    assert(after.snapshots[0] == (key.entry(), snapshot));
    if cache.has(key) {
        let i = choose|i: int|
            0 <= i < cache.snapshots.len() && (#[trigger] cache.snapshots[i]).0 == key.entry();
        assert(cache.snapshots[i].0.0 == key.height && cache.snapshots[i].0.1 == key.kind);
    }
    if exists|i: int|
        0 <= i < cache.snapshots.len() && (#[trigger] cache.snapshots[i]).0.0 == key.height
            && cache.snapshots[i].0.1 == key.kind {
        let i = choose|i: int|
            0 <= i < cache.snapshots.len() && (#[trigger] cache.snapshots[i]).0.0 == key.height
                && cache.snapshots[i].0.1 == key.kind;
        assert(cache.snapshots[i].0 == key.entry());
    }
}

/// What was read from an answer is handed on exactly if nothing is wrong with the answer and it could
/// be read; what is wrong with the answer comes before what was read from it.
pub proof fn a_snapshot_is_handed_on_only_from_a_sound_answer<T>(
    error: Option<FetchErrorModel>,
    url: Seq<char>,
    read: Result<T, Seq<char>>,
    snapshot: T,
)
    ensures
        snapshot_from(error, url, read) == Ok::<T, FetchErrorModel>(snapshot) <==> error is None
            && read == Ok::<T, Seq<char>>(snapshot),
        error matches Some(wrong) ==> snapshot_from(error, url, read) == Err::<T, FetchErrorModel>(
            wrong,
        ),
        error is None && read is Err ==> (snapshot_from(error, url, read) matches Err(
            FetchErrorModel::Unavailable(message),
        ) && url.is_prefix_of(message) && read->Err_0.is_suffix_of(message)),
{
    if error is None && read is Err {
        let message = url + ": "@ + read->Err_0;
        assert(message.subrange(0, url.len() as int) =~= url);
        assert(message.subrange(message.len() - read->Err_0.len(), message.len() as int)
            =~= read->Err_0);
    }
}

/// A snapshot that lands and is new to the cache pushes out the one that was asked for the longest
/// ago, and only once as many are cached as the cache holds. Whether it lands with its own ticket
/// makes no difference to that.
pub proof fn a_landed_snapshot_pushes_out_the_oldest(
    cache: SnapshotCacheModel,
    key: SnapshotKey,
    ticket: u64,
    snapshot: Seq<char>,
)
    requires
        !cache.has(key),
        cache.snapshots.len() <= 256,
    ensures
        cache.completed(key, ticket, Ok(snapshot)).snapshots == seq![(key.entry(), snapshot)]
            + cache.snapshots.take(
            if cache.snapshots.len() < 256 {
                cache.snapshots.len() as int
            } else {
                255
            },
        ),
{
    let entries = cache.snapshots;
    only_the_least_recently_used_leaves(
        entries,
        SNAPSHOT_CACHE_SIZE as nat,
        key.entry(),
        snapshot,
    );
    if entries.len() < 256 {
        assert(entries.take(entries.len() as int) =~= entries);
    } else {
        assert(entries.take(255) =~= entries.drop_last());
    }
}

} // verus!
