//! What the cache holds of a source: its inventory, and how old it is.

#[allow(unused_imports)]
use crate::clock::{earlier, is_reading, nanos, representable, seconds_since};
use crate::clock::{read_clock, seconds_before, seconds_between, Stamp};
#[allow(unused_imports)]
use crate::domain::dataset::{dataset_text, DatasetView, GroupView, VarsView};
use crate::domain::dataset::{Dataset, Group, HostVars};
use crate::model::Dup;
use crate::strmap::{StrMap, StrSet};
#[allow(unused_imports)]
use crate::strmap::{lemma_not_before, lemma_prefix_step, lemma_prefix_whole, lemma_sorted, sorted, without};
#[allow(unused_imports)]
use crate::text::{decimal_text, hex_text, Text};
use crate::text::{decimal, hexadecimal, str_eq};
use bytes::Bytes;
use std::hash::{DefaultHasher, Hasher};
use std::sync::Arc;
use std::time::Instant;
use vstd::prelude::*;
use vstd::bytes::u64_to_le_bytes;
#[allow(unused_imports)]
use vstd::bytes::spec_u64_to_le_bytes;
use vstd::rwlock::{RwLock, RwLockPredicate};
#[allow(unused_imports)]
use vstd::std_specs::hash::DefaultHasherAdditionalSpecFns;

verus! {

/// `bytes::Bytes`.
#[verifier::external_type_specification]
#[verifier::external_body]
pub struct ExBytes(bytes::Bytes);

/// The bytes that a `Bytes` holds.
pub uninterp spec fn buffer(b: bytes::Bytes) -> Seq<u8>;

/// `Bytes::from` a vector: a buffer with the vector's bytes.
#[verifier::external_body]
fn bytes_from(v: Vec<u8>) -> (b: Bytes)
    ensures
        buffer(b) == v@,
{
    Bytes::from(v)
}

/// `Arc::try_unwrap`: the value itself where nobody else shares it, else the
/// shared value back.
#[verifier::external_body]
fn unshared<T>(shared: Arc<T>) -> (r: Result<T, Arc<T>>)
    ensures
        match r {
            Ok(value) => value == *shared,
            Err(still) => still == shared,
        },
{
    Arc::try_unwrap(shared)
}

/// A shared value as one's own: copied only where somebody else holds it.
fn owned<T: Dup>(shared: Arc<T>) -> (value: T)
    ensures
        value.deep_view() == shared.deep_view(),
{
    match unshared(shared) {
        Ok(value) => value,
        Err(still) => (*still).dup(),
    }
}

/// A strong ETag of a hash and a length.
pub open spec fn etag_text(hash: u64, len: nat) -> Text {
    "\""@ + hex_text(hash as nat, 16) + "-"@ + decimal_text(len) + "\""@
}

/// A strong ETag of a hash and a length: the hash in sixteen hexadecimal
/// digits, a hyphen and the length, in double quotes.
pub fn etag(hash: u64, len: usize) -> (tag: String)
    ensures
        tag@ == etag_text(hash, len as nat),
{
    let mut tag = "\"".to_owned();
    tag.append(hexadecimal(hash, 16).as_str());
    tag.append("-");
    tag.append(decimal(len as u64).as_str());
    tag.append("\"");
    tag
}

/// The hash of a run of bytes: of its length, then of the bytes.
pub open spec fn content_hash(bytes: Seq<u8>) -> u64 {
    DefaultHasher::spec_finish(seq![spec_u64_to_le_bytes(bytes.len() as u64), bytes])
}

fn hash_content(bytes: &Vec<u8>) -> (hash: u64)
    ensures
        hash == content_hash(bytes@),
{
    let mut hasher = DefaultHasher::new();
    hasher.write(u64_to_le_bytes(bytes.len() as u64).as_slice());
    hasher.write(bytes.as_slice());
    assert(hasher@ =~= seq![spec_u64_to_le_bytes(bytes@.len() as u64), bytes@]);
    hasher.finish()
}

/// An inventory written as JSON, with an ETag of the bytes.
pub struct SerializedJson {
    pub bytes: Bytes,
    pub etag: String,
}

impl SerializedJson {
    /// These are the bytes of the given text, with their ETag.
    pub open spec fn is_of(self, text: Text) -> bool {
        &&& buffer(self.bytes) == vstd::utf8::encode_utf8(text)
        &&& self.etag@ == etag_text(content_hash(buffer(self.bytes)), buffer(self.bytes).len())
    }

    fn of(text: &str) -> (json: SerializedJson)
        ensures
            json.is_of(text@),
    {
        let bytes: Vec<u8> = text.as_bytes_vec();
        let tag = etag(hash_content(&bytes), bytes.len());
        SerializedJson { bytes: bytes_from(bytes), etag: tag }
    }
}

/// The JSON that may stand beside an inventory: none yet, or its own.
pub struct JsonOf {
    pub dataset: DatasetView,
}

impl RwLockPredicate<Option<Arc<SerializedJson>>> for JsonOf {
    open spec fn inv(self, v: Option<Arc<SerializedJson>>) -> bool {
        v matches Some(json) ==> json.is_of(dataset_text(self.dataset))
    }
}

/// An inventory that many readers share, with its JSON beside it once somebody
/// asked for it. A copy shares both.
pub struct SharedDataset {
    data: Arc<Dataset>,
    json: Arc<RwLock<Option<Arc<SerializedJson>>, JsonOf>>,
}

impl DeepView for SharedDataset {
    type V = DatasetView;

    closed spec fn deep_view(&self) -> DatasetView {
        self.data.deep_view()
    }
}

impl View for SharedDataset {
    type V = DatasetView;

    open spec fn view(&self) -> DatasetView {
        self.deep_view()
    }
}

impl SharedDataset {
    #[verifier::type_invariant]
    spec fn beside(self) -> bool {
        self.json.pred() == (JsonOf { dataset: self.data.deep_view() })
    }

    /// Shares an inventory. Nobody has asked for its JSON yet.
    pub fn new(dataset: Arc<Dataset>) -> (shared: Self)
        ensures
            shared@ == dataset.deep_view(),
    {
        let json = RwLock::new(None, Ghost(JsonOf { dataset: dataset.deep_view() }));
        SharedDataset { data: dataset, json: Arc::new(json) }
    }

    /// The inventory.
    pub fn get(&self) -> (dataset: &Dataset)
        ensures
            dataset@ == self@,
    {
        &*self.data
    }

    /// The inventory, to be held beyond this borrow.
    pub fn share(&self) -> (dataset: Arc<Dataset>)
        ensures
            dataset.deep_view() == self@,
    {
        self.data.clone()
    }

    /// The inventory as one's own, to change: copied only where it is shared.
    fn into_owned(self) -> (dataset: Dataset)
        ensures
            dataset@ == self@,
    {
        owned(self.data)
    }

    /// The inventory as JSON, written at most once however often it is asked for.
    pub fn json(&self) -> (json: Arc<SerializedJson>)
        ensures
            json.is_of(dataset_text(self@)),
    {
        proof {
            use_type_invariant(self);
        }
        let reader = self.json.acquire_read();
        let found: Option<Arc<SerializedJson>> = match reader.borrow() {
            Some(json) => Some(json.clone()),
            None => None,
        };
        reader.release_read();
        if let Some(json) = found {
            return json;
        }
        let fresh = Arc::new(SerializedJson::of((*self.data).to_json().as_str()));
        let (held, writer) = self.json.acquire_write();
        let json = match held {
            Some(json) => json,
            None => fresh,
        };
        writer.release_write(Some(json.clone()));
        json
    }
}

impl Clone for SharedDataset {
    fn clone(&self) -> (copy: Self)
        ensures
            copy@ == self@,
    {
        proof {
            use_type_invariant(self);
        }
        SharedDataset { data: self.data.clone(), json: self.json.clone() }
    }
}

/// What an entry of the cache holds. Moments are places on the monotonic clock,
/// in nanoseconds.
#[verifier::ext_equal]
pub struct EntryView {
    pub dataset: DatasetView,
    /// When the whole source was last gathered.
    pub fetched_at: int,
    /// For how many seconds it then counts as fresh.
    pub ttl: int,
    /// When each host was last gathered.
    pub stamps: Map<Text, int>,
    /// A gather of the whole source has landed here.
    pub complete: bool,
}

/// A group without the given hosts.
pub open spec fn group_without(group: GroupView, gone: Set<Text>) -> GroupView {
    GroupView { hosts: group.hosts.filter(|h: Text| !gone.contains(h)), ..group }
}

/// Groups without the given hosts.
pub open spec fn groups_without(groups: Map<Text, GroupView>, gone: Set<Text>) -> Map<Text, GroupView> {
    Map::new(|g: Text| groups.contains_key(g), |g: Text| group_without(groups[g], gone))
}

/// Hosts with the variables of `partial` put over their own. Other hosts of
/// `partial` are left out.
pub open spec fn hosts_patched(hosts: Map<Text, VarsView>, partial: Map<Text, VarsView>) -> Map<Text, VarsView> {
    Map::new(
        |h: Text| hosts.contains_key(h),
        |h: Text|
            if partial.contains_key(h) {
                hosts[h].union_prefer_right(partial[h])
            } else {
                hosts[h]
            },
    )
}

/// A group with the given variables put over its own.
pub open spec fn group_patched(group: GroupView, vars: Option<VarsView>) -> GroupView {
    match vars {
        None => group,
        Some(new) => GroupView {
            vars: Some(
                match group.vars {
                    Some(own) => own.union_prefer_right(new),
                    None => new,
                },
            ),
            ..group
        },
    }
}

/// Groups with the variables of `partial` put over their own. A group that is
/// not there yet is created as `partial` has it.
pub open spec fn groups_patched(groups: Map<Text, GroupView>, partial: Map<Text, GroupView>) -> Map<Text, GroupView> {
    Map::new(
        |g: Text| groups.contains_key(g) || partial.contains_key(g),
        |g: Text|
            if !groups.contains_key(g) {
                partial[g]
            } else if partial.contains_key(g) {
                group_patched(groups[g], partial[g].vars)
            } else {
                groups[g]
            },
    )
}

/// Groups of which the named ones have the host; one that is not there is created.
pub open spec fn groups_with_host(groups: Map<Text, GroupView>, names: Seq<Text>, host: Text) -> Map<Text, GroupView> {
    Map::new(
        |g: Text| groups.contains_key(g) || names.contains(g),
        |g: Text|
            {
                let own = if groups.contains_key(g) {
                    groups[g]
                } else {
                    GroupView::none()
                };
                if names.contains(g) && !own.hosts.contains(host) {
                    GroupView { hosts: own.hosts.push(host), ..own }
                } else {
                    own
                }
            },
    )
}

/// The groups that a host is in, in ascending order.
pub open spec fn groups_of(groups: Map<Text, GroupView>, host: Text) -> Seq<Text> {
    sorted(Set::new(|g: Text| groups.contains_key(g) && groups[g].hosts.contains(host)))
}

/// A host of the group that `partial` knows.
pub open spec fn refreshed(dataset: DatasetView, group: Text, partial: DatasetView, host: Text) -> bool {
    dataset.groups.contains_key(group) && dataset.groups[group].hosts.contains(host)
        && partial.hostvars.contains_key(host)
}

impl EntryView {
    /// What a gather of the whole source leaves behind: every host gathered then.
    pub open spec fn gathered(dataset: DatasetView, ttl: int, now: int) -> EntryView {
        EntryView {
            dataset,
            fetched_at: now,
            ttl,
            stamps: Map::new(|h: Text| dataset.hostvars.contains_key(h), |h: Text| now),
            complete: true,
        }
    }

    /// Every host has a moment at which it was gathered.
    pub open spec fn stamped(self) -> bool {
        forall|h: Text| #[trigger] self.dataset.hostvars.contains_key(h) ==> self.stamps.contains_key(h)
    }

    /// The whole source counts as fresh: it was gathered as a whole, and not too
    /// long ago.
    pub open spec fn fresh(self, now: int) -> bool {
        self.complete && seconds_since(now, self.fetched_at) < self.ttl
    }

    /// A host counts as fresh.
    pub open spec fn host_fresh(self, host: Text, ttl: int, now: int) -> bool {
        self.stamps.contains_key(host) && seconds_since(now, self.stamps[host]) < ttl
    }

    /// How old a host is, where anything is known of it.
    pub open spec fn host_age(self, host: Text, now: int) -> Option<int> {
        if self.stamps.contains_key(host) {
            Some(seconds_since(now, self.stamps[host]))
        } else {
            None
        }
    }

    /// With a host's variables, gathered at the given moment.
    pub open spec fn with_host(self, host: Text, vars: VarsView, at: int) -> EntryView {
        EntryView {
            dataset: DatasetView { hostvars: self.dataset.hostvars.insert(host, vars), ..self.dataset },
            stamps: self.stamps.insert(host, at),
            ..self
        }
    }

    /// Without the given hosts: neither their variables, nor their moments, nor
    /// their places in groups.
    pub open spec fn dropping(self, gone: Set<Text>) -> EntryView {
        EntryView {
            dataset: DatasetView {
                hostvars: without(self.dataset.hostvars, gone),
                groups: groups_without(self.dataset.groups, gone),
                ..self.dataset
            },
            stamps: without(self.stamps, gone),
            ..self
        }
    }

    /// With the hosts and the groups of `partial` in place of their own; then
    /// without the hosts that `partial` removes. The hosts that come are stamped
    /// with `now`; where `restamp` is not set, only those that had no moment.
    pub open spec fn merged(self, partial: DatasetView, restamp: bool, now: int) -> EntryView {
        EntryView {
            dataset: DatasetView {
                hostvars: self.dataset.hostvars.union_prefer_right(partial.hostvars),
                groups: self.dataset.groups.union_prefer_right(partial.groups),
                ..self.dataset
            },
            stamps: self.stamps.union_prefer_right(
                Map::new(
                    |h: Text| partial.hostvars.contains_key(h) && (restamp || !self.stamps.contains_key(h)),
                    |h: Text| now,
                ),
            ),
            ..self
        }.dropping(partial.remove_hosts.to_set())
    }

    /// With the variables of `partial` put over those of the hosts.
    pub open spec fn with_fields(self, partial: DatasetView) -> EntryView {
        EntryView {
            dataset: DatasetView {
                hostvars: hosts_patched(self.dataset.hostvars, partial.hostvars),
                ..self.dataset
            },
            ..self
        }
    }

    /// With the group variables of `partial` put over those of the groups.
    pub open spec fn with_group_vars(self, partial: DatasetView) -> EntryView {
        EntryView {
            dataset: DatasetView {
                groups: groups_patched(self.dataset.groups, partial.groups),
                ..self.dataset
            },
            ..self
        }
    }

    /// With what `partial` knows of the hosts of a group, gathered at `now`, and
    /// of the group's own variables.
    pub open spec fn with_group(self, group: Text, partial: DatasetView, now: int) -> EntryView {
        EntryView {
            dataset: DatasetView {
                hostvars: self.dataset.hostvars.union_prefer_right(
                    Map::new(
                        |h: Text| refreshed(self.dataset, group, partial, h),
                        |h: Text| partial.hostvars[h],
                    ),
                ),
                groups: if self.dataset.groups.contains_key(group) && partial.groups.contains_key(group) {
                    self.dataset.groups.insert(
                        group,
                        GroupView { vars: partial.groups[group].vars, ..self.dataset.groups[group] },
                    )
                } else {
                    self.dataset.groups
                },
                ..self.dataset
            },
            stamps: self.stamps.union_prefer_right(
                Map::new(|h: Text| refreshed(self.dataset, group, partial, h), |h: Text| now),
            ),
            ..self
        }
    }

    /// With a captured host put back, gathered at the given moment.
    pub open spec fn with_retained(self, host: RetainedView, at: int) -> EntryView {
        let entry = self.with_host(host.hostname, host.vars, at);
        EntryView {
            dataset: DatasetView {
                groups: groups_with_host(entry.dataset.groups, host.groups, host.hostname),
                ..entry.dataset
            },
            ..entry
        }
    }

    /// What is known of a host.
    pub open spec fn captured(self, host: Text, now: int) -> Option<RetainedView> {
        if self.dataset.hostvars.contains_key(host) {
            Some(
                RetainedView {
                    hostname: host,
                    vars: self.dataset.hostvars[host],
                    age: match self.host_age(host, now) {
                        Some(age) => age,
                        None => 0,
                    },
                    groups: groups_of(self.dataset.groups, host),
                },
            )
        } else {
            None
        }
    }
}

/// What a captured host holds.
#[verifier::ext_equal]
pub struct RetainedView {
    pub hostname: Text,
    pub vars: VarsView,
    pub age: int,
    pub groups: Seq<Text>,
}

/// Everything the cache knows about one host: its variables, how old they are,
/// and the groups it belongs to.
pub struct RetainedHost {
    hostname: String,
    vars: HostVars,
    age_seconds: u64,
    groups: Vec<String>,
}

impl RetainedHost {
    /// How old the host was when it was captured, in seconds.
    pub fn age_seconds(&self) -> (age: u64)
        ensures
            age == self@.age,
    {
        self.age_seconds
    }

    /// The variables of the host.
    pub fn vars(&self) -> (vars: &HostVars)
        ensures
            vars@ == self@.vars,
    {
        &self.vars
    }

    /// The groups that the host was in, in ascending order.
    pub fn groups(&self) -> (groups: &Vec<String>)
        ensures
            groups.deep_view() == self@.groups,
    {
        &self.groups
    }
}

impl View for RetainedHost {
    type V = RetainedView;

    closed spec fn view(&self) -> RetainedView {
        RetainedView {
            hostname: self.hostname@,
            vars: self.vars@,
            age: self.age_seconds as int,
            groups: self.groups.deep_view(),
        }
    }
}

/// An inventory with what the cache has to know of it: when the whole source was
/// last gathered, and when each host was.
pub struct CacheEntry {
    dataset: SharedDataset,
    fetched_at: Instant,
    ttl_seconds: u64,
    host_timestamps: Arc<StrMap<Stamp>>,
    complete: bool,
}

impl View for CacheEntry {
    type V = EntryView;

    closed spec fn view(&self) -> EntryView {
        EntryView {
            dataset: self.dataset@,
            fetched_at: nanos(self.fetched_at),
            ttl: self.ttl_seconds as int,
            stamps: self.host_timestamps.deep_view(),
            complete: self.complete,
        }
    }
}

impl DeepView for CacheEntry {
    type V = EntryView;

    open spec fn deep_view(&self) -> EntryView {
        self@
    }
}

impl Clone for CacheEntry {
    fn clone(&self) -> (copy: Self)
        ensures
            copy@ == self@,
    {
        CacheEntry {
            dataset: self.dataset.clone(),
            fetched_at: self.fetched_at,
            ttl_seconds: self.ttl_seconds,
            host_timestamps: self.host_timestamps.clone(),
            complete: self.complete,
        }
    }
}

impl Dup for CacheEntry {
    fn dup(&self) -> (copy: Self) {
        self.clone()
    }
}

fn stamps_of(hosts: &StrMap<HostVars>, now: Instant) -> (stamps: StrMap<Stamp>)
    ensures
        stamps@ == Map::new(|h: Text| hosts@.contains_key(h), |h: Text| nanos(now)),
{
    let mut stamps: StrMap<Stamp> = StrMap::new();
    let n: usize = hosts.len();
    let ghost names = sorted(hosts@.dom());
    let mut i: usize = 0;
    while i < n
        invariant
            i <= n == names.len(),
            names == sorted(hosts@.dom()),
            forall|k: Text| #[trigger] stamps@.contains_key(k) <==> names.take(i as int).contains(k),
            forall|k: Text| #[trigger] stamps@.contains_key(k) ==> stamps@[k] == nanos(now),
        decreases n - i,
    {
        proof {
            lemma_prefix_step(names, i as int);
        }
        stamps.insert(hosts.key_at(i).clone(), Stamp { at: now });
        i += 1;
    }
    proof {
        lemma_prefix_whole(hosts@.dom());
        assert(stamps@ =~= Map::new(|h: Text| hosts@.contains_key(h), |h: Text| nanos(now)));
    }
    stamps
}

impl CacheEntry {
    /// A gather of the whole source that ended at the given moment.
    pub fn new_at(dataset: Dataset, ttl_seconds: u64, now: Instant) -> (entry: Self)
        ensures
            entry@ == EntryView::gathered(dataset@, ttl_seconds as int, nanos(now)),
    {
        let host_timestamps = Arc::new(stamps_of(&dataset.hostvars, now));
        CacheEntry {
            dataset: SharedDataset::new(Arc::new(dataset)),
            fetched_at: now,
            ttl_seconds,
            host_timestamps,
            complete: true,
        }
    }

    /// A gather of the whole source that has just ended.
    pub fn new(dataset: Dataset, ttl_seconds: u64) -> (entry: Self)
        ensures
            exists|now: Instant| is_reading(now) && entry@ == EntryView::gathered(dataset@, ttl_seconds as int, #[trigger] nanos(now)),
    {
        CacheEntry::new_at(dataset, ttl_seconds, read_clock())
    }

    /// The inventory.
    pub fn dataset(&self) -> (dataset: &Dataset)
        ensures
            dataset@ == self@.dataset,
    {
        self.dataset.get()
    }

    /// The inventory, to be held beyond this borrow.
    pub fn share_dataset(&self) -> (dataset: Arc<Dataset>)
        ensures
            dataset.deep_view() == self@.dataset,
    {
        self.dataset.share()
    }

    /// For how many seconds a gather counts as fresh.
    pub fn ttl_seconds(&self) -> (ttl: u64)
        ensures
            ttl == self@.ttl,
    {
        self.ttl_seconds
    }

    /// When each host was last gathered.
    pub fn host_timestamps(&self) -> (stamps: &StrMap<Stamp>)
        ensures
            stamps@ == self@.stamps,
    {
        &*self.host_timestamps
    }

    /// When the whole source was last gathered.
    pub fn fetched_at(&self) -> (at: Instant)
        ensures
            nanos(at) == self@.fetched_at,
    {
        self.fetched_at
    }

    /// The inventory as JSON with its ETag, written at most once per version of
    /// the inventory.
    pub fn serialized_json(&self) -> (r: Result<Arc<SerializedJson>, String>)
        ensures
            r matches Ok(json) && json.is_of(dataset_text(self@.dataset)),
    {
        Ok(self.dataset.json())
    }

    /// Whether the whole source counts as fresh at the given moment.
    pub fn is_fresh_at(&self, now: Instant) -> (fresh: bool)
        ensures
            fresh == self@.fresh(nanos(now)),
    {
        self.complete && seconds_between(now, self.fetched_at) < self.ttl_seconds
    }

    /// Whether the whole source counts as fresh.
    pub fn is_fresh(&self) -> (fresh: bool)
        ensures
            exists|now: Instant| is_reading(now) && fresh == self@.fresh(#[trigger] nanos(now)),
    {
        self.is_fresh_at(read_clock())
    }

    /// Whether a gather of the whole source has ever landed here.
    pub fn is_complete(&self) -> (complete: bool)
        ensures
            complete == self@.complete,
    {
        self.complete
    }

    /// Records that only hosts or groups were gathered, not the whole source.
    pub fn mark_partial(&mut self)
        ensures
            final(self)@ == (EntryView { complete: false, ..old(self)@ }),
    {
        self.complete = false;
    }

    /// Records that the whole source was gathered at the given moment.
    pub fn mark_gathered_at(&mut self, now: Instant)
        ensures
            final(self)@ == (EntryView { complete: true, fetched_at: nanos(now), ..old(self)@ }),
    {
        self.fetched_at = now;
        self.complete = true;
    }

    /// Records that the whole source has just been gathered.
    pub fn mark_gathered(&mut self)
        ensures
            exists|now: Instant|
                is_reading(now) && final(self)@ == (EntryView { complete: true, fetched_at: #[trigger] nanos(now), ..old(self)@ }),
    {
        self.mark_gathered_at(read_clock());
    }

    /// Adopts another time to live.
    pub fn set_ttl(&mut self, ttl_seconds: u64)
        ensures
            final(self)@ == (EntryView { ttl: ttl_seconds as int, ..old(self)@ }),
    {
        self.ttl_seconds = ttl_seconds;
    }

    /// How old the gather of the whole source is at the given moment, in seconds.
    pub fn age_seconds_at(&self, now: Instant) -> (age: u64)
        ensures
            age == seconds_since(nanos(now), self@.fetched_at),
    {
        seconds_between(now, self.fetched_at)
    }

    /// How old the gather of the whole source is, in seconds.
    pub fn age_seconds(&self) -> (age: u64)
        ensures
            exists|now: Instant| is_reading(now) && age == seconds_since(#[trigger] nanos(now), self@.fetched_at),
    {
        self.age_seconds_at(read_clock())
    }

    /// Whether a host counts as fresh at the given moment. The time to live is
    /// the entry's own where no other is given.
    pub fn is_host_fresh_at(&self, hostname: &str, ttl_override: Option<u64>, now: Instant) -> (fresh: bool)
        ensures
            fresh == self@.host_fresh(
                hostname@,
                match ttl_override {
                    Some(ttl) => ttl as int,
                    None => self@.ttl,
                },
                nanos(now),
            ),
    {
        let ttl: u64 = match ttl_override {
            Some(ttl) => ttl,
            None => self.ttl_seconds,
        };
        match self.host_timestamps.get(hostname) {
            Some(stamp) => seconds_between(now, stamp.at) < ttl,
            None => false,
        }
    }

    /// Whether a host counts as fresh.
    pub fn is_host_fresh(&self, hostname: &str, ttl_override: Option<u64>) -> (fresh: bool)
        ensures
            exists|now: Instant|
                is_reading(now) && fresh == self@.host_fresh(
                    hostname@,
                    match ttl_override {
                        Some(ttl) => ttl as int,
                        None => self@.ttl,
                    },
                    #[trigger] nanos(now),
                ),
    {
        self.is_host_fresh_at(hostname, ttl_override, read_clock())
    }

    /// How old a host is at the given moment, in seconds.
    pub fn host_age_seconds_at(&self, hostname: &str, now: Instant) -> (age: Option<u64>)
        ensures
            match age {
                Some(seconds) => self@.host_age(hostname@, nanos(now)) == Some(seconds as int),
                None => self@.host_age(hostname@, nanos(now)) is None,
            },
    {
        match self.host_timestamps.get(hostname) {
            Some(stamp) => Some(seconds_between(now, stamp.at)),
            None => None,
        }
    }

    /// How old a host is, in seconds.
    pub fn host_age_seconds(&self, hostname: &str) -> (age: Option<u64>)
        ensures
            exists|now: Instant|
                is_reading(now) && match age {
                    Some(seconds) => self@.host_age(hostname@, #[trigger] nanos(now)) == Some(seconds as int),
                    None => self@.host_age(hostname@, nanos(now)) is None,
                },
    {
        self.host_age_seconds_at(hostname, read_clock())
    }

    /// The inventory as one's own, to change. What is left behind is empty.
    fn take_dataset(&mut self) -> (dataset: Dataset)
        ensures
            dataset@ == old(self)@.dataset,
            final(self)@ == (EntryView { dataset: DatasetView::none(), ..old(self)@ }),
    {
        let mut shared = SharedDataset::new(Arc::new(Dataset::default()));
        std::mem::swap(&mut shared, &mut self.dataset);
        shared.into_owned()
    }

    /// The moments as one's own, to change. What is left behind is empty.
    fn take_stamps(&mut self) -> (stamps: StrMap<Stamp>)
        ensures
            stamps@ == old(self)@.stamps,
            final(self)@ == (EntryView { stamps: Map::empty(), ..old(self)@ }),
    {
        let mut shared: Arc<StrMap<Stamp>> = Arc::new(StrMap::new());
        std::mem::swap(&mut shared, &mut self.host_timestamps);
        owned(shared)
    }

    /// Puts an inventory in place of the one that is there.
    fn put_dataset(&mut self, dataset: Dataset)
        ensures
            final(self)@ == (EntryView { dataset: dataset@, ..old(self)@ }),
    {
        self.dataset = SharedDataset::new(Arc::new(dataset));
    }

    /// Puts moments in place of those that are there.
    fn put_stamps(&mut self, stamps: StrMap<Stamp>)
        ensures
            final(self)@ == (EntryView { stamps: stamps@, ..old(self)@ }),
    {
        self.host_timestamps = Arc::new(stamps);
    }

    /// Puts a host's variables, gathered at the given moment.
    pub fn put_host(&mut self, hostname: String, vars: HostVars, at: Instant)
        ensures
            final(self)@ == old(self)@.with_host(hostname@, vars@, nanos(at)),
    {
        let mut dataset = self.take_dataset();
        let mut stamps = self.take_stamps();
        dataset.hostvars.insert(hostname.clone(), vars);
        stamps.insert(hostname, Stamp { at });
        self.put_dataset(dataset);
        self.put_stamps(stamps);
    }
}

/// `at` is that many seconds before `now`.
pub open spec fn backdated(now: int, seconds: int, at: int) -> bool {
    at == earlier(now, seconds)
}

/// `at` is that many seconds before `now`; or `now`, where the clock cannot
/// represent a moment that long ago.
pub open spec fn aged(now: int, seconds: int, at: int) -> bool {
    if representable(earlier(now, seconds)) {
        backdated(now, seconds, at)
    } else {
        at == now
    }
}

/// The moments of hosts of which the ages are known. A host whose moment the clock
/// cannot represent has none.
pub open spec fn stamps_of_ages(host_ages: Map<Text, u64>, now: int) -> Map<Text, int> {
    Map::new(
        |h: Text| host_ages.contains_key(h) && representable(earlier(now, host_ages[h] as int)),
        |h: Text| earlier(now, host_ages[h] as int),
    )
}

/// What an entry rebuilt from ages holds. Where the clock cannot represent a
/// moment that long ago, the entry is never fresh, and the host has no moment.
pub open spec fn rebuilt(
    entry: EntryView,
    dataset: DatasetView,
    ttl: int,
    age: int,
    host_ages: Map<Text, u64>,
    now: int,
) -> bool {
    &&& entry.dataset == dataset
    &&& entry.complete
    &&& aged(now, age, entry.fetched_at)
    &&& entry.ttl == if representable(earlier(now, age)) {
        ttl
    } else {
        0
    }
    &&& entry.stamps == stamps_of_ages(host_ages, now)
}

fn stamps_from_ages(host_ages: &StrMap<u64>, now: Instant) -> (stamps: StrMap<Stamp>)
    ensures
        stamps@ == stamps_of_ages(host_ages@, nanos(now)),
{
    let mut stamps: StrMap<Stamp> = StrMap::new();
    let n: usize = host_ages.len();
    let ghost names = sorted(host_ages@.dom());
    let mut i: usize = 0;
    while i < n
        invariant
            i <= n == names.len(),
            names == sorted(host_ages@.dom()),
            forall|h: Text| #[trigger]
                stamps@.contains_key(h) <==> names.take(i as int).contains(h) && representable(
                    earlier(nanos(now), host_ages@[h] as int),
                ),
            forall|h: Text| #[trigger]
                stamps@.contains_key(h) ==> stamps@[h] == earlier(nanos(now), host_ages@[h] as int),
        decreases n - i,
    {
        proof {
            lemma_prefix_step(names, i as int);
        }
        let age: u64 = *host_ages.value_at(i);
        if let Some(at) = seconds_before(now, age) {
            stamps.insert(host_ages.key_at(i).clone(), Stamp { at });
        }
        i += 1;
    }
    proof {
        lemma_prefix_whole(host_ages@.dom());
        assert(stamps@ =~= stamps_of_ages(host_ages@, nanos(now)));
    }
    stamps
}

impl CacheEntry {
    /// Rebuilds an entry from how old it is at the given moment.
    pub fn restore_at(
        dataset: Dataset,
        ttl_seconds: u64,
        age_seconds: u64,
        host_ages: &StrMap<u64>,
        now: Instant,
    ) -> (entry: Self)
        ensures
            rebuilt(entry@, dataset@, ttl_seconds as int, age_seconds as int, host_ages@, nanos(now)),
    {
        let (fetched_at, ttl) = match seconds_before(now, age_seconds) {
            Some(at) => (at, ttl_seconds),
            None => (now, 0u64),
        };
        let stamps = stamps_from_ages(host_ages, now);
        let ghost moments = stamps@;
        let entry = CacheEntry {
            dataset: SharedDataset::new(Arc::new(dataset)),
            fetched_at,
            ttl_seconds: ttl,
            host_timestamps: Arc::new(stamps),
            complete: true,
        };
        assert(entry@.stamps == moments);
        entry
    }

    /// Rebuilds an entry from how old it is. Moments do not outlive the process,
    /// so ages are what is stored.
    pub fn restore(dataset: Dataset, ttl_seconds: u64, age_seconds: u64, host_ages: StrMap<u64>) -> (entry: Self)
        ensures
            exists|now: Instant|
                is_reading(now) && rebuilt(
                    entry@,
                    dataset@,
                    ttl_seconds as int,
                    age_seconds as int,
                    host_ages@,
                    #[trigger] nanos(now),
                ),
    {
        CacheEntry::restore_at(dataset, ttl_seconds, age_seconds, &host_ages, read_clock())
    }

    /// Puts a host's variables, gathered that many seconds ago. Where the clock
    /// cannot represent a moment that long ago, they count as gathered now.
    pub fn update_host_aged(&mut self, hostname: String, vars: HostVars, age_seconds: u64)
        ensures
            exists|now: Instant, at: int|
                is_reading(now) && final(self)@ == #[trigger] old(self)@.with_host(hostname@, vars@, at) && aged(
                    #[trigger] nanos(now),
                    age_seconds as int,
                    at,
                ),
    {
        let now = read_clock();
        let at = match seconds_before(now, age_seconds) {
            Some(at) => at,
            None => now,
        };
        let ghost before = self@;
        let ghost name = hostname@;
        let ghost put = vars@;
        self.put_host(hostname, vars, at);
        assert(self@ == before.with_host(name, put, nanos(at)));
        assert(aged(nanos(now), age_seconds as int, nanos(at)));
    }

    /// Puts a host's variables, gathered now.
    pub fn update_host(&mut self, hostname: String, vars: HostVars)
        ensures
            exists|now: Instant| is_reading(now) && final(self)@ == old(self)@.with_host(hostname@, vars@, #[trigger] nanos(now)),
    {
        self.put_host(hostname, vars, read_clock());
    }

    /// What is known of a host at the given moment, to put back later.
    pub fn capture_host_at(&self, hostname: &str, now: Instant) -> (retained: Option<RetainedHost>)
        ensures
            match retained {
                Some(host) => self@.captured(hostname@, nanos(now)) == Some(host@),
                None => self@.captured(hostname@, nanos(now)) is None,
            },
    {
        let dataset = self.dataset();
        let vars = match dataset.hostvars.get(hostname) {
            Some(vars) => vars.dup(),
            None => return None,
        };
        let groups = groups_holding(&dataset.groups, hostname);
        let age_seconds: u64 = match self.host_age_seconds_at(hostname, now) {
            Some(age) => age,
            None => 0,
        };
        Some(RetainedHost { hostname: hostname.to_owned(), vars, age_seconds, groups })
    }

    /// What is known of a host, to put back later.
    pub fn capture_host(&self, hostname: &str) -> (retained: Option<RetainedHost>)
        ensures
            exists|now: Instant|
                is_reading(now) && match retained {
                    Some(host) => self@.captured(hostname@, #[trigger] nanos(now)) == Some(host@),
                    None => self@.captured(hostname@, nanos(now)) is None,
                },
    {
        self.capture_host_at(hostname, read_clock())
    }

    /// Puts a captured host back: its variables, gathered at the given moment, and
    /// its places in groups. A group that is gone is created again.
    pub fn put_retained(&mut self, retained: RetainedHost, at: Instant)
        ensures
            final(self)@ == old(self)@.with_retained(retained@, nanos(at)),
    {
        let RetainedHost { hostname, vars, age_seconds: _, groups: names } = retained;
        self.put_host(hostname.clone(), vars, at);
        let ghost entry = self@;
        let mut dataset = self.take_dataset();
        let ghost before = dataset@.groups;
        let ghost wanted = names.deep_view();
        let mut i: usize = 0;
        while i < names.len()
            invariant
                i <= names@.len(),
                wanted == names.deep_view(),
                dataset@.hostvars == entry.dataset.hostvars,
                dataset@.remove_hosts == entry.dataset.remove_hosts,
                dataset@.groups == groups_with_host(before, wanted.take(i as int), hostname@),
            decreases names@.len() - i,
        {
            let ghost now = dataset@.groups;
            proof {
                lemma_prefix_step(wanted, i as int);
            }
            let mut group = match dataset.groups.remove(names[i].as_str()) {
                Some(group) => group,
                None => Group::default(),
            };
            let ghost own = group@;
            if !contains_string(&group.hosts, hostname.as_str()) {
                group.hosts.push(hostname.clone());
                assert(group@.hosts =~= own.hosts.push(hostname@));
            }
            dataset.groups.insert(names[i].clone(), group);
            proof {
                let name = names@[i as int]@;
                let base = if before.contains_key(name) {
                    before[name]
                } else {
                    GroupView::none()
                };
                assert(wanted[i as int] == name);
                assert(base.hosts.push(hostname@)[base.hosts.len() as int] == hostname@);
                assert(own == groups_with_host(before, wanted.take(i as int), hostname@)[name] || own
                    == GroupView::none());
                assert(dataset@.groups =~= groups_with_host(before, wanted.take(i + 1), hostname@));
            }
            i += 1;
        }
        assert(wanted.take(names@.len() as int) =~= wanted);
        self.put_dataset(dataset);
    }

    /// Puts a captured host back, as old as it was when it was captured.
    pub fn restore_host(&mut self, retained: RetainedHost)
        ensures
            exists|now: Instant, at: int|
                is_reading(now) && final(self)@ == #[trigger] old(self)@.with_retained(retained@, at) && aged(
                    #[trigger] nanos(now),
                    retained@.age,
                    at,
                ),
    {
        let now = read_clock();
        let at = match seconds_before(now, retained.age_seconds) {
            Some(at) => at,
            None => now,
        };
        let ghost before = self@;
        let ghost host = retained@;
        self.put_retained(retained, at);
        assert(self@ == before.with_retained(host, nanos(at)));
        assert(aged(nanos(now), host.age, nanos(at)));
    }
}

/// Whether a string is in a list.
pub(crate) fn contains_string(list: &Vec<String>, item: &str) -> (present: bool)
    ensures
        present == list.deep_view().contains(item@),
{
    let ghost all = list.deep_view();
    let mut i: usize = 0;
    while i < list.len()
        invariant
            i <= list@.len(),
            all == list.deep_view(),
            forall|j: int| 0 <= j < i ==> all[j] != item@,
        decreases list@.len() - i,
    {
        assert(all[i as int] == list@[i as int]@);
        if str_eq(list[i].as_str(), item) {
            return true;
        }
        i += 1;
    }
    false
}

fn groups_holding(groups: &StrMap<Group>, host: &str) -> (names: Vec<String>)
    ensures
        names.deep_view() == groups_of(groups@, host@),
{
    let mut found = StrSet::new();
    let n: usize = groups.len();
    let ghost keys = sorted(groups@.dom());
    let ghost holding = Set::new(|g: Text| groups@.contains_key(g) && groups@[g].hosts.contains(host@));
    let mut i: usize = 0;
    while i < n
        invariant
            i <= n == keys.len(),
            keys == sorted(groups@.dom()),
            forall|k: Text| #[trigger]
                found@.contains(k) <==> keys.take(i as int).contains(k) && groups@[k].hosts.contains(host@),
        decreases n - i,
    {
        proof {
            lemma_prefix_step(keys, i as int);
        }
        if contains_string(&groups.value_at(i).hosts, host) {
            found.insert(groups.key_at(i).clone());
        }
        i += 1;
    }
    proof {
        lemma_prefix_whole(groups@.dom());
        assert(found@ =~= holding);
    }
    found.to_vec()
}

fn hosts_without(hosts: Vec<String>, gone: &StrSet) -> (kept: Vec<String>)
    ensures
        kept.deep_view() == hosts.deep_view().filter(|h: Text| !gone@.contains(h)),
{
    let ghost all = hosts.deep_view();
    let ghost items = hosts@;
    let ghost stays = |h: Text| !gone@.contains(h);
    let mut kept: Vec<String> = Vec::new();
    proof {
        reveal(Seq::filter);
        assert(all.take(0).filter(stays) =~= kept.deep_view());
    }
    for host in it: hosts
        invariant
            it.seq() == items,
            all.len() == items.len(),
            forall|j: int| 0 <= j < items.len() ==> #[trigger] all[j] == items[j]@,
            stays == (|h: Text| !gone@.contains(h)),
            kept.deep_view() == all.take(it.index()).filter(stays),
    {
        let ghost before = kept.deep_view();
        let ghost i = it.index();
        let ghost name = host@;
        proof {
            reveal(Seq::filter);
            assert(all.take(i + 1).drop_last() =~= all.take(i));
            assert(all[i] == name);
        }
        if !gone.contains(host.as_str()) {
            kept.push(host);
            assert(kept.deep_view() =~= before.push(name));
        }
    }
    assert(all.take(items.len() as int) =~= all);
    kept
}

fn drop_from_groups(groups: StrMap<Group>, gone: &StrSet) -> (left: StrMap<Group>)
    ensures
        left@ == groups_without(groups@, gone@),
{
    let ghost before = groups@;
    let ghost keys = sorted(before.dom());
    let mut left: StrMap<Group> = StrMap::new();
    let entries = groups.into_entries();
    let ghost all = entries@;
    for entry in it: entries
        invariant
            it.seq() == all,
            keys == sorted(before.dom()),
            all.len() == keys.len(),
            forall|i: int|
                0 <= i < all.len() ==> {
                    &&& (#[trigger] all[i]).0@ == keys[i]
                    &&& before.contains_key(all[i].0@)
                    &&& all[i].1.deep_view() == before[all[i].0@]
                },
            forall|k: Text| #[trigger] left@.contains_key(k) <==> keys.take(it.index()).contains(k),
            forall|k: Text| #[trigger]
                left@.contains_key(k) ==> before.contains_key(k) && left@[k] == group_without(before[k], gone@),
    {
        proof {
            lemma_prefix_step(keys, it.index());
            assert(all[it.index()] == entry);
        }
        let (name, group) = entry;
        let Group { hosts, children, vars } = group;
        left.insert(name, Group { hosts: hosts_without(hosts, gone), children, vars });
    }
    proof {
        lemma_prefix_whole(before.dom());
        assert(left@ =~= groups_without(before, gone@));
    }
    left
}

impl CacheEntry {
    /// Takes hosts out of the entry: their variables, their moments and their
    /// places in groups.
    fn drop_hosts(&mut self, gone: &StrSet)
        ensures
            final(self)@ == old(self)@.dropping(gone@),
    {
        let Dataset { mut hostvars, groups, remove_hosts } = self.take_dataset();
        let mut stamps = self.take_stamps();
        hostvars.remove_all(gone);
        stamps.remove_all(gone);
        self.put_dataset(Dataset { hostvars, groups: drop_from_groups(groups, gone), remove_hosts });
        self.put_stamps(stamps);
    }

    /// Takes a host out of the entry.
    pub fn remove_host(&mut self, hostname: &str)
        ensures
            final(self)@ == old(self)@.dropping(set![hostname@]),
    {
        let mut gone = StrSet::new();
        gone.insert(hostname.to_owned());
        assert(gone@ =~= set![hostname@]);
        self.drop_hosts(&gone);
    }

    /// Merges what came into the entry at the given moment.
    pub fn merge_at(&mut self, partial: Dataset, restamp_existing: bool, now: Instant)
        ensures
            final(self)@ == old(self)@.merged(partial@, restamp_existing, nanos(now)),
    {
        let ghost before = self@;
        let ghost came = partial@;
        let Dataset { hostvars: hosts, groups, remove_hosts } = partial;
        let mut dataset = self.take_dataset();
        let mut stamps = self.take_stamps();
        let n: usize = hosts.len();
        let ghost names = sorted(hosts@.dom());
        let mut i: usize = 0;
        while i < n
            invariant
                i <= n == names.len(),
                names == sorted(hosts@.dom()),
                hosts@.dom().finite(),
                forall|k: Text| #[trigger]
                    stamps@.contains_key(k) <==> before.stamps.contains_key(k) || names.take(i as int).contains(k),
                forall|k: Text| #[trigger]
                    stamps@.contains_key(k) ==> stamps@[k] == (if names.take(i as int).contains(k) && (restamp_existing
                        || !before.stamps.contains_key(k)) {
                        nanos(now)
                    } else {
                        before.stamps[k]
                    }),
            decreases n - i,
        {
            proof {
                lemma_prefix_step(names, i as int);
                lemma_sorted(hosts@.dom());
                lemma_not_before(names, i as int);
            }
            let host: &String = hosts.key_at(i);
            if restamp_existing || !stamps.contains_key(host.as_str()) {
                stamps.insert(host.clone(), Stamp { at: now });
            }
            i += 1;
        }
        proof {
            lemma_prefix_whole(hosts@.dom());
            assert(stamps@ =~= before.stamps.union_prefer_right(
                Map::new(
                    |h: Text| came.hostvars.contains_key(h) && (restamp_existing || !before.stamps.contains_key(h)),
                    |h: Text| nanos(now),
                ),
            ));
        }
        dataset.hostvars.extend(hosts);
        dataset.groups.extend(groups);
        self.put_dataset(dataset);
        self.put_stamps(stamps);
        let mut gone = StrSet::new();
        gone.extend(&remove_hosts);
        assert(gone@ =~= came.remove_hosts.to_set());
        self.drop_hosts(&gone);
    }

    /// Merges what a connector gathered: the hosts that come are gathered now.
    pub fn merge_dataset(&mut self, partial: Dataset)
        ensures
            exists|now: Instant| is_reading(now) && final(self)@ == old(self)@.merged(partial@, true, #[trigger] nanos(now)),
    {
        self.merge_at(partial, true, read_clock());
    }

    /// Merges what an enricher derived: a host that was known keeps its moment.
    pub fn merge_enrichment(&mut self, partial: Dataset)
        ensures
            exists|now: Instant| is_reading(now) && final(self)@ == old(self)@.merged(partial@, false, #[trigger] nanos(now)),
    {
        self.merge_at(partial, false, read_clock());
    }

    /// Puts derived variables over those of the hosts, key by key. No host is
    /// introduced, and none counts as gathered for it.
    pub fn merge_hostvar_fields(&mut self, partial: Dataset)
        ensures
            final(self)@ == old(self)@.with_fields(partial@),
    {
        let ghost came = partial@.hostvars;
        let ghost keys = sorted(came.dom());
        let mut dataset = self.take_dataset();
        let ghost before = dataset@.hostvars;
        let entries = partial.hostvars.into_entries();
        let ghost all = entries@;
        for entry in it: entries
            invariant
                it.seq() == all,
                keys == sorted(came.dom()),
                came.dom().finite(),
                all.len() == keys.len(),
                forall|i: int|
                    0 <= i < all.len() ==> {
                        &&& (#[trigger] all[i]).0@ == keys[i]
                        &&& came.contains_key(all[i].0@)
                        &&& all[i].1.deep_view() == came[all[i].0@]
                    },
                dataset@.groups == old(self)@.dataset.groups,
                dataset@.remove_hosts == old(self)@.dataset.remove_hosts,
                dataset@.hostvars.dom() == before.dom(),
                forall|k: Text| #[trigger]
                    dataset@.hostvars.contains_key(k) ==> dataset@.hostvars[k] == (if keys.take(it.index()).contains(k) {
                        before[k].union_prefer_right(came[k])
                    } else {
                        before[k]
                    }),
        {
            let ghost i = it.index();
            proof {
                lemma_prefix_step(keys, i);
                assert(all[i] == entry);
                lemma_sorted(came.dom());
                lemma_not_before(keys, i);
            }
            let (host, vars) = entry;
            match dataset.hostvars.remove(host.as_str()) {
                Some(mut existing) => {
                    existing.extend(vars);
                    dataset.hostvars.insert(host, existing);
                },
                None => {},
            }
            assert(dataset@.hostvars.dom() =~= before.dom());
        }
        proof {
            lemma_prefix_whole(came.dom());
            assert(dataset@.hostvars =~= hosts_patched(before, came));
        }
        self.put_dataset(dataset);
    }

    /// Puts derived variables over those of the groups, key by key. A group that
    /// is not there yet is created with the hosts and the children it comes with.
    pub fn merge_group_var_fields(&mut self, partial: Dataset)
        ensures
            final(self)@ == old(self)@.with_group_vars(partial@),
    {
        let ghost came = partial@.groups;
        let ghost keys = sorted(came.dom());
        let mut dataset = self.take_dataset();
        let ghost before = dataset@.groups;
        let entries = partial.groups.into_entries();
        let ghost all = entries@;
        for entry in it: entries
            invariant
                it.seq() == all,
                keys == sorted(came.dom()),
                came.dom().finite(),
                all.len() == keys.len(),
                forall|i: int|
                    0 <= i < all.len() ==> {
                        &&& (#[trigger] all[i]).0@ == keys[i]
                        &&& came.contains_key(all[i].0@)
                        &&& all[i].1.deep_view() == came[all[i].0@]
                    },
                dataset@.hostvars == old(self)@.dataset.hostvars,
                dataset@.remove_hosts == old(self)@.dataset.remove_hosts,
                forall|k: Text| #[trigger]
                    dataset@.groups.contains_key(k) <==> before.contains_key(k) || keys.take(it.index()).contains(k),
                forall|k: Text| #[trigger]
                    dataset@.groups.contains_key(k) ==> dataset@.groups[k] == (if !before.contains_key(k) {
                        came[k]
                    } else if keys.take(it.index()).contains(k) {
                        group_patched(before[k], came[k].vars)
                    } else {
                        before[k]
                    }),
        {
            let ghost i = it.index();
            proof {
                lemma_prefix_step(keys, i);
                assert(all[i] == entry);
                lemma_sorted(came.dom());
                lemma_not_before(keys, i);
            }
            let (name, group) = entry;
            let ghost known = dataset@.groups;
            let ghost key = name@;
            match dataset.groups.remove(name.as_str()) {
                Some(existing) => {
                    let Group { hosts, children, vars } = existing;
                    let patched: Option<HostVars> = match group.vars {
                        Some(new) => match vars {
                            Some(mut own) => {
                                own.extend(new);
                                Some(own)
                            },
                            None => Some(new),
                        },
                        None => vars,
                    };
                    let whole = Group { hosts, children, vars: patched };
                    assert(whole@ == group_patched(known[key], came[key].vars));
                    dataset.groups.insert(name, whole);
                },
                None => {
                    dataset.groups.insert(name, group);
                },
            }
            assert(dataset@.groups =~= known.insert(
                key,
                if known.contains_key(key) {
                    group_patched(known[key], came[key].vars)
                } else {
                    came[key]
                },
            ));
        }
        proof {
            lemma_prefix_whole(came.dom());
            assert(dataset@.groups =~= groups_patched(before, came));
        }
        self.put_dataset(dataset);
    }

    /// Puts what is known of the hosts of a group, gathered at the given moment.
    pub fn update_group_at(&mut self, group_name: &str, partial_dataset: Dataset, now: Instant)
        ensures
            final(self)@ == old(self)@.with_group(group_name@, partial_dataset@, nanos(now)),
    {
        let ghost before = self@;
        let ghost came = partial_dataset@;
        let ghost name = group_name@;
        let mut dataset = self.take_dataset();
        let mut stamps = self.take_stamps();
        if let Some(mut group) = dataset.groups.remove(group_name) {
            let ghost members = group@.hosts;
            let ghost own = group@;
            let mut i: usize = 0;
            while i < group.hosts.len()
                invariant
                    i <= group.hosts@.len(),
                    members == group.hosts.deep_view(),
                    came == partial_dataset@,
                    dataset@.groups == before.dataset.groups.remove(name),
                    dataset@.remove_hosts == before.dataset.remove_hosts,
                    forall|k: Text| #[trigger]
                        dataset@.hostvars.contains_key(k) <==> before.dataset.hostvars.contains_key(k) || (
                        members.take(i as int).contains(k) && came.hostvars.contains_key(k)),
                    forall|k: Text| #[trigger]
                        dataset@.hostvars.contains_key(k) ==> dataset@.hostvars[k] == (if members.take(
                            i as int,
                        ).contains(k) && came.hostvars.contains_key(k) {
                            came.hostvars[k]
                        } else {
                            before.dataset.hostvars[k]
                        }),
                    forall|k: Text| #[trigger]
                        stamps@.contains_key(k) <==> before.stamps.contains_key(k) || (members.take(
                            i as int,
                        ).contains(k) && came.hostvars.contains_key(k)),
                    forall|k: Text| #[trigger]
                        stamps@.contains_key(k) ==> stamps@[k] == (if members.take(i as int).contains(k)
                            && came.hostvars.contains_key(k) {
                            nanos(now)
                        } else {
                            before.stamps[k]
                        }),
                decreases group.hosts@.len() - i,
            {
                proof {
                    lemma_prefix_step(members, i as int);
                }
                let host: &String = &group.hosts[i];
                assert(members[i as int] == host@);
                if let Some(vars) = partial_dataset.hostvars.get(host.as_str()) {
                    let ghost known = dataset@.hostvars;
                    dataset.hostvars.insert(host.clone(), vars.dup());
                    assert(dataset@.hostvars == known.insert(host@, came.hostvars[host@]));
                    stamps.insert(host.clone(), Stamp { at: now });
                }
                i += 1;
            }
            assert(members.take(members.len() as int) =~= members);
            assert(before.dataset.groups.contains_key(name) && before.dataset.groups[name].hosts == members);
            proof {
                let want = before.with_group(name, came, nanos(now));
                assert forall|k: Text| members.contains(k) && came.hostvars.contains_key(k) <==> #[trigger] refreshed(
                    before.dataset,
                    name,
                    came,
                    k,
                ) by {}
                assert(dataset@.hostvars =~= want.dataset.hostvars);
                assert(stamps@ =~= want.stamps);
            }
            if let Some(new_group) = partial_dataset.groups.get(group_name) {
                group.vars = new_group.vars.dup();
            }
            dataset.groups.insert(group_name.to_owned(), group);
        }
        proof {
            let want = before.with_group(name, came, nanos(now));
            assert(dataset@.hostvars =~= want.dataset.hostvars);
            assert(dataset@.groups =~= want.dataset.groups);
            assert(stamps@ =~= want.stamps);
        }
        self.put_dataset(dataset);
        self.put_stamps(stamps);
    }

    /// Puts what is known of the hosts of a group, gathered now.
    pub fn update_group(&mut self, group_name: &str, partial_dataset: Dataset)
        ensures
            exists|now: Instant|
                is_reading(now) && final(self)@ == old(self)@.with_group(group_name@, partial_dataset@, #[trigger] nanos(now)),
    {
        self.update_group_at(group_name, partial_dataset, read_clock());
    }
}

} // verus!
