//! The in-memory `storage` and `events` capability hosts.
//!
//! `storage` is permission-gated: without the grant every call fails with
//! `permission-denied` before it touches any data. It is bounded by a quota on
//! the number of keys and one on the total of value bytes. `events.emit` is
//! always grantable and bounded by a cap on the payload of one event and one on
//! the number of events.
use crate::api::{
    api_err, copy_bytes, event_views, ApiError, ApiErrorView, EventView, PluginEvent,
};
use crate::text::str_eq;
use vstd::prelude::*;

verus! {

/// Per-plugin storage quota: at most this many keys.
pub const STORAGE_MAX_KEYS: usize = 128;

/// Per-plugin storage quota: at most this many value bytes across all keys.
pub const STORAGE_MAX_TOTAL_BYTES: usize = 256 * 1024;

/// Per-plugin events cap: at most this many captured events.
pub const EVENTS_MAX_COUNT: usize = 256;

/// Per-plugin events cap: at most this many bytes in one event's payload.
pub const EVENT_MAX_PAYLOAD_BYTES: usize = 64 * 1024;

// ── The stored values as a map ──────────────────────────────────────────────

/// The map that a list of entries stands for.
pub open spec fn kv_map(s: Seq<(String, Vec<u8>)>) -> Map<Seq<char>, Seq<u8>>
    decreases s.len(),
{
    if s.len() == 0 {
        Map::empty()
    } else {
        kv_map(s.drop_last()).insert(s.last().0@, s.last().1@)
    }
}

/// Whether no key occurs twice.
pub open spec fn distinct_keys(s: Seq<(String, Vec<u8>)>) -> bool {
    forall|i: int, j: int| 0 <= i < j < s.len() ==> #[trigger] s[i].0@ != #[trigger] s[j].0@
}

/// The total length of the values of a map.
pub open spec fn value_bytes(m: Map<Seq<char>, Seq<u8>>) -> nat
    decreases m.dom().len(),
    when m.dom().finite()
{
    if m.dom().len() == 0 {
        0
    } else {
        let k = m.dom().choose();
        m[k].len() + value_bytes(m.remove(k))
    }
}

/// The total length of the values of a list of entries.
spec fn entry_bytes(s: Seq<(String, Vec<u8>)>) -> nat
    decreases s.len(),
{
    if s.len() == 0 {
        0
    } else {
        entry_bytes(s.drop_last()) + s.last().1@.len()
    }
}

/// Any one value can be counted first.
pub proof fn lemma_value_bytes_remove(m: Map<Seq<char>, Seq<u8>>, k: Seq<char>)
    requires
        m.dom().finite(),
        m.contains_key(k),
    ensures
        value_bytes(m) == m[k].len() + value_bytes(m.remove(k)),
    decreases m.dom().len(),
{
    let c = m.dom().choose();
    assert(m.dom().contains(c)) by {
        assert(m.dom().len() > 0);
    }
    if c != k {
        lemma_value_bytes_remove(m.remove(c), k);
        lemma_value_bytes_remove(m.remove(k), c);
        assert(m.remove(c).remove(k) =~= m.remove(k).remove(c));
    }
}

proof fn lemma_kv_map(s: Seq<(String, Vec<u8>)>)
    requires
        distinct_keys(s),
    ensures
        kv_map(s).dom().finite(),
        kv_map(s).dom().len() == s.len(),
        forall|i: int| 0 <= i < s.len() ==> kv_map(s).contains_key(#[trigger] s[i].0@),
        forall|i: int| 0 <= i < s.len() ==> kv_map(s)[#[trigger] s[i].0@] == s[i].1@,
        forall|k: Seq<char>| #[trigger]
            kv_map(s).contains_key(k) ==> exists|i: int| 0 <= i < s.len() && #[trigger] s[i].0@ == k,
        value_bytes(kv_map(s)) == entry_bytes(s),
    decreases s.len(),
{
    if s.len() > 0 {
        let t = s.drop_last();
        let last = s.last();
        assert forall|i: int, j: int| 0 <= i < j < t.len() implies #[trigger] t[i].0@
            != #[trigger] t[j].0@ by {
            assert(t[i] == s[i] && t[j] == s[j]);
        }
        lemma_kv_map(t);
        assert(!kv_map(t).contains_key(last.0@)) by {
            if kv_map(t).contains_key(last.0@) {
                let i = choose|i: int| 0 <= i < t.len() && #[trigger] t[i].0@ == last.0@;
                assert(s[i].0@ != s[s.len() - 1].0@);
            }
        }
        assert forall|i: int| 0 <= i < s.len() implies kv_map(s).contains_key(#[trigger] s[i].0@)
            && kv_map(s)[s[i].0@] == s[i].1@ by {
            if i < t.len() {
                assert(t[i] == s[i]);
                assert(s[i].0@ != s[s.len() - 1].0@);
            }
        }
        assert forall|k: Seq<char>| #[trigger] kv_map(s).contains_key(k) implies exists|i: int|
            0 <= i < s.len() && #[trigger] s[i].0@ == k by {
            if k == last.0@ {
                assert(s[s.len() - 1].0@ == k);
            } else {
                assert(kv_map(t).contains_key(k));
                let i = choose|i: int| 0 <= i < t.len() && #[trigger] t[i].0@ == k;
                assert(s[i].0@ == k);
            }
        }
        lemma_value_bytes_remove(kv_map(s), last.0@);
        assert(kv_map(s).remove(last.0@) =~= kv_map(t));
    }
}

proof fn lemma_entry_bytes_bound(s: Seq<(String, Vec<u8>)>, n: int)
    requires
        0 <= n <= s.len(),
    ensures
        entry_bytes(s.take(n)) <= entry_bytes(s),
        n < s.len() ==> entry_bytes(s.take(n + 1)) == entry_bytes(s.take(n)) + s[n].1@.len(),
    decreases s.len(),
{
    if n < s.len() {
        assert(s.take(n + 1).drop_last() =~= s.take(n));
        let t = s.drop_last();
        lemma_entry_bytes_bound(t, n);
        assert(t.take(n) =~= s.take(n));
    } else {
        assert(s.take(n) =~= s);
    }
}

// ── The host ────────────────────────────────────────────────────────────────

/// In-memory state behind the `storage` and `events` capabilities.
pub struct StorageEventsHost {
    /// The storage permission. `events` is not behind it.
    pub granted: bool,
    kv: Vec<(String, Vec<u8>)>,
    events: Vec<PluginEvent>,
}

/// The host state as a mathematical value.
#[verifier::ext_equal]
pub struct StorageEventsView {
    pub granted: bool,
    pub kv: Map<Seq<char>, Seq<u8>>,
    pub events: Seq<EventView>,
}

/// The error of every storage call without the grant.
pub open spec fn denied_error() -> ApiErrorView {
    ApiErrorView { code: "permission-denied"@, message: "storage: capability not granted"@ }
}

/// The error of a storage write over a quota.
pub open spec fn quota_error(what: Seq<char>) -> ApiErrorView {
    ApiErrorView {
        code: "quota-exceeded"@,
        message: "storage: "@ + what + " quota exceeded"@,
    }
}

/// The error of an event whose payload is too large.
pub open spec fn payload_error() -> ApiErrorView {
    ApiErrorView { code: "quota-exceeded"@, message: "events: payload too large"@ }
}

/// The error of an event past the count cap.
pub open spec fn rate_error() -> ApiErrorView {
    ApiErrorView { code: "rate-limited"@, message: "events: emit rate cap reached"@ }
}

impl StorageEventsView {
    /// The quotas and caps that every operation keeps.
    pub open spec fn within_limits(self) -> bool {
        &&& self.kv.dom().finite()
        &&& self.kv.dom().len() <= STORAGE_MAX_KEYS
        &&& value_bytes(self.kv) <= STORAGE_MAX_TOTAL_BYTES
        &&& self.events.len() <= EVENTS_MAX_COUNT
        &&& forall|i: int|
            0 <= i < self.events.len() ==> (#[trigger] self.events[i]).payload.len()
                <= EVENT_MAX_PAYLOAD_BYTES
    }

    /// The value bytes after writing `value` under `key`.
    pub open spec fn projected_bytes(self, key: Seq<char>, value: Seq<u8>) -> int {
        value_bytes(self.kv) - (if self.kv.contains_key(key) {
            self.kv[key].len() as int
        } else {
            0
        }) + value.len()
    }

    /// Why a write is refused, if it is.
    pub open spec fn set_refusal(self, key: Seq<char>, value: Seq<u8>) -> Option<ApiErrorView> {
        if !self.granted {
            Some(denied_error())
        } else if !self.kv.contains_key(key) && self.kv.dom().len() >= STORAGE_MAX_KEYS {
            Some(quota_error("key count"@))
        } else if self.projected_bytes(key, value) > STORAGE_MAX_TOTAL_BYTES {
            Some(quota_error("total bytes"@))
        } else {
            None
        }
    }

    /// The state after writing `value` under `key`.
    pub open spec fn after_set(self, key: Seq<char>, value: Seq<u8>) -> StorageEventsView {
        if self.set_refusal(key, value) is Some {
            self
        } else {
            StorageEventsView { kv: self.kv.insert(key, value), ..self }
        }
    }

    /// The state after deleting `key`.
    pub open spec fn after_delete(self, key: Seq<char>) -> StorageEventsView {
        if self.granted {
            StorageEventsView { kv: self.kv.remove(key), ..self }
        } else {
            self
        }
    }

    /// The state after clearing the storage.
    pub open spec fn after_clear(self) -> StorageEventsView {
        if self.granted {
            StorageEventsView { kv: Map::empty(), ..self }
        } else {
            self
        }
    }

    /// What reading `key` gives.
    pub open spec fn read(self, key: Seq<char>) -> Option<Seq<u8>> {
        if self.kv.contains_key(key) {
            Some(self.kv[key])
        } else {
            None
        }
    }

    /// Why an event is refused, if it is.
    pub open spec fn emit_refusal(self, event: EventView) -> Option<ApiErrorView> {
        if event.payload.len() > EVENT_MAX_PAYLOAD_BYTES {
            Some(payload_error())
        } else if self.events.len() >= EVENTS_MAX_COUNT {
            Some(rate_error())
        } else {
            None
        }
    }

    /// The state after emitting an event.
    pub open spec fn after_emit(self, event: EventView) -> StorageEventsView {
        if self.emit_refusal(event) is Some {
            self
        } else {
            StorageEventsView { events: self.events.push(event), ..self }
        }
    }
}

impl View for StorageEventsHost {
    type V = StorageEventsView;

    closed spec fn view(&self) -> StorageEventsView {
        StorageEventsView {
            granted: self.granted,
            kv: kv_map(self.kv@),
            events: event_views(self.events@),
        }
    }
}

/// The storage error for a missing grant.
fn denied() -> (e: ApiError)
    ensures
        e@ == denied_error(),
{
    api_err("permission-denied", "storage: capability not granted")
}

/// The storage error for a quota.
fn quota_exceeded(what: &str) -> (e: ApiError)
    ensures
        e@ == quota_error(what@),
{
    let message = String::from_str("storage: ").concat(what).concat(" quota exceeded");
    ApiError { code: "quota-exceeded".to_owned(), message }
}

impl StorageEventsHost {
    /// The invariant of the host: keys are distinct and the limits hold.
    pub closed spec fn valid(&self) -> bool {
        &&& distinct_keys(self.kv@)
        &&& self@.within_limits()
    }

    /// Every valid host is within its quotas and caps.
    pub proof fn lemma_within_limits(&self)
        requires
            self.valid(),
        ensures
            self@.within_limits(),
    {
    }

    /// A host with the given storage grant and nothing in it.
    pub fn new(granted: bool) -> (host: StorageEventsHost)
        ensures
            host.valid(),
            host@ == (StorageEventsView { granted, kv: Map::empty(), events: seq![] }),
    {
        let host = StorageEventsHost { granted, kv: Vec::new(), events: Vec::new() };
        proof {
            lemma_kv_map(host.kv@);
            assert(host@.events =~= seq![]);
        }
        host
    }

    /// The captured events, in the order of emission.
    pub fn captured_events(&self) -> (events: &[PluginEvent])
        ensures
            event_views(events@) == self@.events,
    {
        self.events.as_slice()
    }

    /// The index of the entry for `key`.
    fn position(&self, key: &str) -> (at: Option<usize>)
        requires
            self.valid(),
        ensures
            match at {
                Some(i) => i < self.kv@.len() && self.kv@[i as int].0@ == key@
                    && self@.kv.contains_key(key@) && self@.kv[key@] == self.kv@[i as int].1@,
                None => !self@.kv.contains_key(key@),
            },
    {
        proof {
            lemma_kv_map(self.kv@);
        }
        let mut i: usize = 0;
        while i < self.kv.len()
            invariant
                i <= self.kv@.len(),
                forall|j: int| 0 <= j < i ==> #[trigger] self.kv@[j].0@ != key@,
                self.valid(),
                forall|j: int|
                    0 <= j < self.kv@.len() ==> kv_map(self.kv@).contains_key(
                        #[trigger] self.kv@[j].0@,
                    ),
                forall|j: int|
                    0 <= j < self.kv@.len() ==> kv_map(self.kv@)[#[trigger] self.kv@[j].0@]
                        == self.kv@[j].1@,
            decreases self.kv.len() - i,
        {
            if str_eq(self.kv[i].0.as_str(), key) {
                return Some(i);
            }
            i += 1;
        }
        None
    }

    /// The total of the value bytes held.
    fn total_bytes(&self) -> (n: usize)
        requires
            self.valid(),
        ensures
            n == value_bytes(self@.kv),
    {
        proof {
            lemma_kv_map(self.kv@);
        }
        let mut n: usize = 0;
        let mut i: usize = 0;
        assert(self.kv@.take(0) =~= Seq::empty());
        while i < self.kv.len()
            invariant
                i <= self.kv@.len(),
                n == entry_bytes(self.kv@.take(i as int)),
                entry_bytes(self.kv@) <= STORAGE_MAX_TOTAL_BYTES,
            decreases self.kv.len() - i,
        {
            proof {
                lemma_entry_bytes_bound(self.kv@, i as int);
                lemma_entry_bytes_bound(self.kv@, i + 1);
            }
            n += self.kv[i].1.len();
            i += 1;
        }
        assert(self.kv@.take(self.kv@.len() as int) =~= self.kv@);
        n
    }

    /// A stored value, whatever the grant.
    pub fn stored_value(&self, key: &str) -> (value: Option<&Vec<u8>>)
        requires
            self.valid(),
        ensures
            match value {
                Some(v) => self@.read(key@) == Some(v@),
                None => self@.read(key@) is None,
            },
    {
        match self.position(key) {
            Some(i) => Some(&self.kv[i].1),
            None => None,
        }
    }

    /// Reads a value.
    pub fn get(&mut self, key: String) -> (r: Result<Option<Vec<u8>>, ApiError>)
        requires
            old(self).valid(),
        ensures
            *final(self) == *old(self),
            match r {
                Ok(Some(v)) => old(self)@.granted && old(self)@.read(key@) == Some(v@),
                Ok(None) => old(self)@.granted && old(self)@.read(key@) is None,
                Err(e) => !old(self)@.granted && e@ == denied_error(),
            },
    {
        if !self.granted {
            return Err(denied());
        }
        match self.position(key.as_str()) {
            Some(i) => Ok(Some(copy_bytes(self.kv[i].1.as_slice()))),
            None => Ok(None),
        }
    }

    /// Writes a value, where the grant and both quotas allow it.
    pub fn set(&mut self, key: String, value: Vec<u8>) -> (r: Result<(), ApiError>)
        requires
            old(self).valid(),
        ensures
            final(self).valid(),
            final(self)@ == old(self)@.after_set(key@, value@),
            match r {
                Ok(_) => old(self)@.set_refusal(key@, value@) is None,
                Err(e) => old(self)@.set_refusal(key@, value@) == Some(e@),
            },
    {
        if !self.granted {
            return Err(denied());
        }
        proof {
            lemma_kv_map(self.kv@);
        }
        let at = self.position(key.as_str());
        if at.is_none() && self.kv.len() >= STORAGE_MAX_KEYS {
            return Err(quota_exceeded("key count"));
        }
        let total: usize = self.total_bytes();
        let old_len: usize = match at {
            Some(i) => {
                proof {
                    lemma_value_bytes_remove(self@.kv, key@);
                }
                self.kv[i].1.len()
            },
            None => 0,
        };
        if value.len() > STORAGE_MAX_TOTAL_BYTES - (total - old_len) {
            return Err(quota_exceeded("total bytes"));
        }
        let ghost before = self.kv@;
        let ghost pair = (key, value);
        match at {
            Some(i) => {
                self.kv.set(i, (key, value));
                proof {
                    let after = self.kv@;
                    assert(distinct_keys(after)) by {
                        assert forall|a: int, b: int| 0 <= a < b < after.len() implies #[trigger] after[a].0@
                            != #[trigger] after[b].0@ by {
                            assert(before[a].0@ != before[b].0@);
                        }
                    }
                    lemma_kv_map(after);
                    assert forall|k: Seq<char>| kv_map(after).contains_key(k) == kv_map(
                        before,
                    ).contains_key(k) by {
                        if kv_map(after).contains_key(k) {
                            let j = choose|j: int|
                                0 <= j < after.len() && #[trigger] after[j].0@ == k;
                            assert(before[j].0@ == k);
                        }
                        if kv_map(before).contains_key(k) {
                            let j = choose|j: int|
                                0 <= j < before.len() && #[trigger] before[j].0@ == k;
                            assert(after[j].0@ == k);
                        }
                    }
                    assert forall|k: Seq<char>| kv_map(after).contains_key(k) implies kv_map(after)[k]
                        == kv_map(before).insert(pair.0@, pair.1@)[k] by {
                        let j = choose|j: int| 0 <= j < after.len() && #[trigger] after[j].0@ == k;
                        assert(before[j].0@ == k);
                        if k == pair.0@ && j != i {
                            assert(after[i as int].0@ == k);
                        }
                    }
                    assert(kv_map(after) =~= kv_map(before).insert(pair.0@, pair.1@));
                }
            },
            None => {
                self.kv.push((key, value));
                proof {
                    let after = self.kv@;
                    assert(after.drop_last() =~= before);
                    assert(distinct_keys(after)) by {
                        assert forall|a: int, b: int| 0 <= a < b < after.len() implies #[trigger] after[a].0@
                            != #[trigger] after[b].0@ by {
                            assert(after[a] == before[a]);
                            if b < before.len() {
                                assert(before[a].0@ != before[b].0@);
                            } else {
                                assert(kv_map(before).contains_key(before[a].0@));
                            }
                        }
                    }
                    lemma_kv_map(after);
                }
            },
        }
        proof {
            let now = kv_map(self.kv@);
            assert(now == kv_map(before).insert(pair.0@, pair.1@));
            lemma_value_bytes_remove(now, pair.0@);
            assert(now.remove(pair.0@) =~= kv_map(before).remove(pair.0@));
            if at is Some {
                lemma_value_bytes_remove(kv_map(before), pair.0@);
            } else {
                assert(kv_map(before).remove(pair.0@) =~= kv_map(before));
            }
        }
        Ok(())
    }

    /// Deletes a key; deleting an absent key succeeds and changes nothing.
    pub fn delete(&mut self, key: String) -> (r: Result<(), ApiError>)
        requires
            old(self).valid(),
        ensures
            final(self).valid(),
            final(self)@ == old(self)@.after_delete(key@),
            match r {
                Ok(_) => old(self)@.granted,
                Err(e) => !old(self)@.granted && e@ == denied_error(),
            },
    {
        if !self.granted {
            return Err(denied());
        }
        let ghost before = self.kv@;
        proof {
            lemma_kv_map(before);
        }
        match self.position(key.as_str()) {
            Some(i) => {
                self.kv.remove(i);
                proof {
                    let after = self.kv@;
                    let back = |j: int|
                        if j < i {
                            j
                        } else {
                            j + 1
                        };
                    assert forall|j: int| 0 <= j < after.len() implies #[trigger] after[j]
                        == before[back(j)] by {}
                    assert(distinct_keys(after)) by {
                        assert forall|a: int, b: int| 0 <= a < b < after.len() implies #[trigger] after[a].0@
                            != #[trigger] after[b].0@ by {
                            assert(before[back(a)].0@ != before[back(b)].0@);
                        }
                    }
                    lemma_kv_map(after);
                    assert forall|k: Seq<char>| kv_map(after).contains_key(k) == kv_map(
                        before,
                    ).remove(key@).contains_key(k) by {
                        if kv_map(after).contains_key(k) {
                            let j = choose|j: int|
                                0 <= j < after.len() && #[trigger] after[j].0@ == k;
                            assert(before[back(j)].0@ == k);
                            if k == key@ {
                                if back(j) < i {
                                    assert(before[back(j)].0@ != before[i as int].0@);
                                } else {
                                    assert(before[i as int].0@ != before[back(j)].0@);
                                }
                            }
                        }
                        if kv_map(before).remove(key@).contains_key(k) {
                            let j = choose|j: int|
                                0 <= j < before.len() && #[trigger] before[j].0@ == k;
                            if j < i {
                                assert(after[j].0@ == k);
                            } else {
                                assert(after[j - 1].0@ == k);
                            }
                        }
                    }
                    assert forall|k: Seq<char>| kv_map(after).contains_key(k) implies kv_map(after)[k]
                        == kv_map(before)[k] by {
                        let j = choose|j: int| 0 <= j < after.len() && #[trigger] after[j].0@ == k;
                        assert(before[back(j)].0@ == k);
                    }
                    assert(kv_map(after) =~= kv_map(before).remove(key@));
                    lemma_value_bytes_remove(kv_map(before), key@);
                }
            },
            None => {
                assert(kv_map(before).remove(key@) =~= kv_map(before));
            },
        }
        Ok(())
    }

    /// Removes every value.
    pub fn clear(&mut self) -> (r: Result<(), ApiError>)
        requires
            old(self).valid(),
        ensures
            final(self).valid(),
            final(self)@ == old(self)@.after_clear(),
            match r {
                Ok(_) => old(self)@.granted,
                Err(e) => !old(self)@.granted && e@ == denied_error(),
            },
    {
        if !self.granted {
            return Err(denied());
        }
        self.kv.clear();
        proof {
            lemma_kv_map(self.kv@);
        }
        Ok(())
    }

    /// The keys that hold a value, each once, in no promised order.
    pub fn list_keys(&mut self) -> (r: Result<Vec<String>, ApiError>)
        requires
            old(self).valid(),
        ensures
            *final(self) == *old(self),
            match r {
                Ok(keys) => {
                    let views = keys@.map_values(|k: String| k@);
                    &&& old(self)@.granted
                    &&& views.no_duplicates()
                    &&& views.to_set() == old(self)@.kv.dom()
                    &&& views.len() == old(self)@.kv.dom().len()
                },
                Err(e) => !old(self)@.granted && e@ == denied_error(),
            },
    {
        if !self.granted {
            return Err(denied());
        }
        let mut keys: Vec<String> = Vec::new();
        let mut i: usize = 0;
        while i < self.kv.len()
            invariant
                i <= self.kv@.len(),
                keys@.len() == i,
                forall|j: int| 0 <= j < i ==> (#[trigger] keys@[j])@ == self.kv@[j].0@,
            decreases self.kv.len() - i,
        {
            keys.push(self.kv[i].0.clone());
            i += 1;
        }
        proof {
            lemma_kv_map(self.kv@);
            let views = keys@.map_values(|k: String| k@);
            assert forall|a: int, b: int| 0 <= a < b < views.len() implies views[a] != views[b] by {
                assert(self.kv@[a].0@ != self.kv@[b].0@);
            }
            assert forall|k: Seq<char>| views.to_set().contains(k) == self@.kv.dom().contains(k) by {
                if views.to_set().contains(k) {
                    let j = choose|j: int| 0 <= j < views.len() && views[j] == k;
                    assert(self.kv@[j].0@ == k);
                }
                if self@.kv.dom().contains(k) {
                    assert(kv_map(self.kv@).contains_key(k));
                    let j = choose|j: int| 0 <= j < self.kv@.len() && #[trigger] self.kv@[j].0@ == k;
                    assert(views[j] == k);
                }
            }
            assert(views.to_set() =~= self@.kv.dom());
        }
        Ok(keys)
    }

    /// Captures an event, where both caps allow it. The storage grant plays no
    /// part.
    pub fn emit(&mut self, event: PluginEvent) -> (r: Result<(), ApiError>)
        requires
            old(self).valid(),
        ensures
            final(self).valid(),
            final(self)@ == old(self)@.after_emit(event@),
            match r {
                Ok(_) => old(self)@.emit_refusal(event@) is None,
                Err(e) => old(self)@.emit_refusal(event@) == Some(e@),
            },
    {
        if event.payload.len() > EVENT_MAX_PAYLOAD_BYTES {
            return Err(api_err("quota-exceeded", "events: payload too large"));
        }
        if self.events.len() >= EVENTS_MAX_COUNT {
            return Err(api_err("rate-limited", "events: emit rate cap reached"));
        }
        let ghost before = self.events@;
        let ghost pushed = event;
        self.events.push(event);
        assert(event_views(self.events@) =~= event_views(before).push(pushed@));
        Ok(())
    }
}

// ── Laws ────────────────────────────────────────────────────────────────────

/// A read gives back what an accepted write wrote, and leaves every other key
/// as it was.
pub proof fn law_read_after_set(
    h: StorageEventsView,
    key: Seq<char>,
    value: Seq<u8>,
    other: Seq<char>,
)
    requires
        h.set_refusal(key, value) is None,
    ensures
        h.after_set(key, value).read(key) == Some(value),
        other != key ==> h.after_set(key, value).read(other) == h.read(other),
        h.after_set(key, value).events == h.events,
{
}

/// A refused write changes nothing.
pub proof fn law_refused_set_changes_nothing(h: StorageEventsView, key: Seq<char>, value: Seq<u8>)
    requires
        h.set_refusal(key, value) is Some,
    ensures
        h.after_set(key, value) == h,
{
}

/// With the grant, a deleted key reads as absent, every other key is as it was,
/// and deleting again changes nothing.
pub proof fn law_read_after_delete(h: StorageEventsView, key: Seq<char>, other: Seq<char>)
    requires
        h.granted,
    ensures
        h.after_delete(key).read(key) is None,
        other != key ==> h.after_delete(key).read(other) == h.read(other),
        h.after_delete(key).after_delete(key) == h.after_delete(key),
        !h.kv.contains_key(key) ==> h.after_delete(key) == h,
{
    assert(h.after_delete(key).after_delete(key) =~= h.after_delete(key));
    if !h.kv.contains_key(key) {
        assert(h.after_delete(key) =~= h);
    }
}

/// With the grant, every key reads as absent after a clear.
pub proof fn law_clear_empties(h: StorageEventsView, key: Seq<char>)
    requires
        h.granted,
    ensures
        h.after_clear().read(key) is None,
        h.after_clear().events == h.events,
{
}

/// Without the grant no storage call changes anything, and a write is refused
/// as denied whatever the quotas.
pub proof fn law_denied_storage_is_untouched(h: StorageEventsView, key: Seq<char>, value: Seq<u8>)
    requires
        !h.granted,
    ensures
        h.set_refusal(key, value) == Some(denied_error()),
        h.after_set(key, value) == h,
        h.after_delete(key) == h,
        h.after_clear() == h,
{
}

/// Overwriting a key that is present is never refused for the number of keys.
pub proof fn law_overwrite_is_no_new_key(h: StorageEventsView, key: Seq<char>, value: Seq<u8>)
    requires
        h.granted,
        h.kv.contains_key(key),
    ensures
        h.set_refusal(key, value) is None <==> h.projected_bytes(key, value)
            <= STORAGE_MAX_TOTAL_BYTES,
{
}

/// Whether an event is accepted does not depend on the storage grant.
pub proof fn law_events_ignore_the_grant(h: StorageEventsView, granted: bool, event: EventView)
    ensures
        h.emit_refusal(event) == (StorageEventsView { granted, ..h }).emit_refusal(event),
{
}

/// Every operation keeps the quotas and the caps.
pub proof fn law_limits_are_kept(
    h: StorageEventsView,
    key: Seq<char>,
    value: Seq<u8>,
    event: EventView,
)
    requires
        h.within_limits(),
    ensures
        h.after_set(key, value).within_limits(),
        h.after_delete(key).within_limits(),
        h.after_clear().within_limits(),
        h.after_emit(event).within_limits(),
{
    let set = h.after_set(key, value);
    if h.set_refusal(key, value) is None {
        lemma_value_bytes_remove(set.kv, key);
        if h.kv.contains_key(key) {
            assert(set.kv.remove(key) =~= h.kv.remove(key));
            assert(set.kv.dom() =~= h.kv.dom());
            lemma_value_bytes_remove(h.kv, key);
        } else {
            assert(set.kv.remove(key) =~= h.kv);
            assert(set.kv.dom() =~= h.kv.dom().insert(key));
        }
    }
    if h.granted && h.kv.contains_key(key) {
        lemma_value_bytes_remove(h.kv, key);
        assert(h.after_delete(key).kv.dom() =~= h.kv.dom().remove(key));
    } else if h.granted {
        assert(h.after_delete(key).kv =~= h.kv);
    }
    assert(Map::<Seq<char>, Seq<u8>>::empty().dom() =~= Set::empty());
}

/// An event is accepted exactly where its payload has at most 65536 bytes and
/// fewer than 256 events were captured. An accepted event comes behind those
/// captured before, so events stay in the order of emission; a refused one
/// changes nothing.
pub proof fn law_events_keep_the_order_of_emission(
    h: StorageEventsView,
    a: EventView,
    b: EventView,
)
    ensures
        h.emit_refusal(a) is None <==> a.payload.len() <= 65536 && h.events.len() < 256,
        a.payload.len() > 65536 ==> h.emit_refusal(a) == Some(
            ApiErrorView { code: "quota-exceeded"@, message: "events: payload too large"@ },
        ),
        a.payload.len() <= 65536 && h.events.len() >= 256 ==> h.emit_refusal(a) == Some(
            ApiErrorView { code: "rate-limited"@, message: "events: emit rate cap reached"@ },
        ),
        h.emit_refusal(a) is Some ==> h.after_emit(a) == h,
        h.emit_refusal(a) is None ==> h.after_emit(a).events == h.events.push(a)
            && h.after_emit(a).kv == h.kv && h.after_emit(a).granted == h.granted,
        h.emit_refusal(a) is None && h.after_emit(a).emit_refusal(b) is None ==> h.after_emit(
            a,
        ).after_emit(b).events == h.events.push(a).push(b),
{
}

/// The captured events are handed out as they stand: oldest first, kind and
/// payload as they were emitted.
pub proof fn law_captured_events_are_those_emitted(
    h: &StorageEventsHost,
    events: &[PluginEvent],
    i: int,
)
    requires
        call_ensures(StorageEventsHost::captured_events, (h,), events),
        0 <= i < events@.len(),
    ensures
        events@.len() == h@.events.len(),
        events@[i].kind@ == h@.events[i].kind,
        events@[i].payload@ == h@.events[i].payload,
{
    assert(event_views(events@)[i] == events@[i]@);
}

/// A write is accepted exactly with the grant, with a key that is there or room
/// among 128 keys, and with at most 262144 value bytes in all. What is refused
/// says why.
pub proof fn law_writes_within_the_quotas_are_accepted(
    h: StorageEventsView,
    key: Seq<char>,
    value: Seq<u8>,
)
    ensures
        ({
            let kept = value_bytes(h.kv) - (if h.kv.contains_key(key) {
                h.kv[key].len() as int
            } else {
                0
            });
            let room = h.kv.contains_key(key) || h.kv.dom().len() < 128;
            &&& h.set_refusal(key, value) is None <==> h.granted && room && kept + value.len()
                <= 262144
            &&& !h.granted ==> h.set_refusal(key, value) == Some(
                ApiErrorView {
                    code: "permission-denied"@,
                    message: "storage: capability not granted"@,
                },
            )
            &&& h.granted && !room ==> h.set_refusal(key, value) == Some(
                ApiErrorView {
                    code: "quota-exceeded"@,
                    message: "storage: key count quota exceeded"@,
                },
            )
            &&& h.granted && room && kept + value.len() > 262144 ==> h.set_refusal(key, value)
                == Some(
                ApiErrorView {
                    code: "quota-exceeded"@,
                    message: "storage: total bytes quota exceeded"@,
                },
            )
        }),
{
    reveal_strlit("storage: ");
    reveal_strlit("key count");
    reveal_strlit("total bytes");
    reveal_strlit(" quota exceeded");
    reveal_strlit("storage: key count quota exceeded");
    reveal_strlit("storage: total bytes quota exceeded");
    assert("storage: "@ + "key count"@ + " quota exceeded"@
        =~= "storage: key count quota exceeded"@);
    assert("storage: "@ + "total bytes"@ + " quota exceeded"@
        =~= "storage: total bytes quota exceeded"@);
}

/// The value bytes of a storage are the sum over its keys: none without a key,
/// and a new key adds the length of its value.
pub proof fn law_value_bytes_add_up(
    m: Map<Seq<char>, Seq<u8>>,
    key: Seq<char>,
    value: Seq<u8>,
)
    requires
        m.dom().finite(),
        !m.contains_key(key),
    ensures
        value_bytes(Map::empty()) == 0,
        value_bytes(m.insert(key, value)) == value_bytes(m) + value.len(),
{
    assert(Map::<Seq<char>, Seq<u8>>::empty().dom() =~= Set::empty());
    lemma_value_bytes_remove(m.insert(key, value), key);
    assert(m.insert(key, value).remove(key) =~= m);
}

/// What a host keeps besides: a write, a deletion and a clear leave the events
/// and the grant as they are, and an accepted write keeps every other key.
pub proof fn law_storage_calls_keep_the_rest(
    h: StorageEventsView,
    key: Seq<char>,
    value: Seq<u8>,
)
    ensures
        h.after_set(key, value).events == h.events,
        h.after_set(key, value).granted == h.granted,
        h.after_delete(key).events == h.events,
        h.after_delete(key).granted == h.granted,
        h.after_clear().events == h.events,
        h.after_clear().granted == h.granted,
        h.set_refusal(key, value) is None ==> h.after_set(key, value).kv == h.kv.insert(key, value),
        h.granted ==> h.after_delete(key).kv == h.kv.remove(key),
        h.granted ==> h.after_clear().kv == Map::<Seq<char>, Seq<u8>>::empty(),
        h.kv.contains_key(key) ==> h.read(key) == Some(h.kv[key]),
        !h.kv.contains_key(key) ==> h.read(key) is None,
{
}

/// Emitting captures the event behind those before it exactly where the caps of
/// 65536 payload bytes and 256 events allow it, and changes nothing else.
pub proof fn law_emit_captures_in_order(
    h: &mut StorageEventsHost,
    event: PluginEvent,
    r: Result<(), ApiError>,
)
    requires
        call_ensures(StorageEventsHost::emit, (h, event), r),
    ensures
        r is Ok <==> event.payload@.len() <= 65536 && old(h)@.events.len() < 256,
        r is Ok ==> final(h)@.events.len() == old(h)@.events.len() + 1 && final(h)@.events
            == old(h)@.events.push(event@),
        r is Err ==> final(h)@.events == old(h)@.events,
        final(h)@.kv == old(h)@.kv,
        final(h)@.granted == old(h)@.granted,
{
}

/// A write is accepted exactly with the grant and within the quotas of 128 keys
/// and 262144 value bytes; it stores just this value under just this key.
pub proof fn law_set_stores_the_value(
    h: &mut StorageEventsHost,
    key: String,
    value: Vec<u8>,
    r: Result<(), ApiError>,
)
    requires
        call_ensures(StorageEventsHost::set, (h, key, value), r),
    ensures
        r is Ok <==> old(h)@.granted && (old(h)@.kv.contains_key(key@) || old(h)@.kv.dom().len()
            < 128) && value_bytes(old(h)@.kv) - (if old(h)@.kv.contains_key(key@) {
            old(h)@.kv[key@].len() as int
        } else {
            0
        }) + value@.len() <= 262144,
        r is Ok ==> final(h)@.kv == old(h)@.kv.insert(key@, value@),
        r is Err ==> final(h)@.kv == old(h)@.kv,
        final(h)@.events == old(h)@.events,
        final(h)@.granted == old(h)@.granted,
{
}

/// A read gives the stored bytes, nothing for an absent key, and an error exactly
/// without the grant; it changes nothing.
pub proof fn law_get_gives_the_value(
    h: &mut StorageEventsHost,
    key: String,
    r: Result<Option<Vec<u8>>, ApiError>,
)
    requires
        call_ensures(StorageEventsHost::get, (h, key), r),
    ensures
        r is Err <==> !old(h)@.granted,
        r matches Ok(Some(v)) ==> old(h)@.kv.contains_key(key@) && v@ == old(h)@.kv[key@],
        r matches Ok(None) ==> !old(h)@.kv.contains_key(key@),
        r matches Err(e) ==> e@.code == "permission-denied"@,
        final(h)@ == old(h)@,
{
}

/// A deletion removes just its key, and fails exactly without the grant.
pub proof fn law_delete_removes_the_key(
    h: &mut StorageEventsHost,
    key: String,
    r: Result<(), ApiError>,
)
    requires
        call_ensures(StorageEventsHost::delete, (h, key), r),
    ensures
        r is Ok <==> old(h)@.granted,
        r is Ok ==> final(h)@.kv == old(h)@.kv.remove(key@),
        r is Err ==> final(h)@.kv == old(h)@.kv,
        final(h)@.events == old(h)@.events,
        final(h)@.granted == old(h)@.granted,
{
}

/// A clear leaves no key, and fails exactly without the grant.
pub proof fn law_clear_removes_every_key(h: &mut StorageEventsHost, r: Result<(), ApiError>)
    requires
        call_ensures(StorageEventsHost::clear, (h,), r),
    ensures
        r is Ok <==> old(h)@.granted,
        r is Ok ==> final(h)@.kv.dom() == Set::<Seq<char>>::empty(),
        r is Err ==> final(h)@.kv == old(h)@.kv,
        final(h)@.events == old(h)@.events,
        final(h)@.granted == old(h)@.granted,
{
    assert(Map::<Seq<char>, Seq<u8>>::empty().dom() =~= Set::empty());
}

/// A listing names each key once and nothing else, and fails exactly without the
/// grant.
pub proof fn law_list_names_each_key_once(
    h: &mut StorageEventsHost,
    r: Result<Vec<String>, ApiError>,
    key: Seq<char>,
)
    requires
        call_ensures(StorageEventsHost::list_keys, (h,), r),
    ensures
        r is Ok <==> old(h)@.granted,
        r matches Ok(keys) ==> (keys@.map_values(|k: String| k@).contains(key)
            <==> old(h)@.kv.contains_key(key)) && keys@.map_values(|k: String| k@).no_duplicates(),
        final(h)@ == old(h)@,
{
    if let Ok(keys) = r {
        let views = keys@.map_values(|k: String| k@);
        assert(views.contains(key) <==> views.to_set().contains(key));
        assert(old(h)@.kv.dom().contains(key) <==> old(h)@.kv.contains_key(key));
    }
}

} // verus!
