//! The full capability host for a plugin that uses `workspace`, `storage`,
//! `events` and `log`.
//!
//! `workspace` serves canned portfolio names behind the permission gate.
//! `storage` and `events` are those of [`StorageEventsHost`], built with the same
//! gate decision. `log` captures each line.
use crate::api::{
    copy_bytes, name_views, ApiError, ApiErrorView, EventView, Level, PluginEvent, PortfolioName,
    PortfolioNameView,
};
use crate::storage_events::{denied_error, value_bytes, StorageEventsHost, StorageEventsView};
use vstd::prelude::*;

verus! {

/// One captured log line.
#[derive(Debug, Clone, PartialEq, Eq)]
pub struct LogLine {
    pub level: Level,
    pub message: String,
}

/// A log line as a mathematical value.
#[verifier::ext_equal]
pub struct LogLineView {
    pub level: Level,
    pub message: Seq<char>,
}

impl View for LogLine {
    type V = LogLineView;

    open spec fn view(&self) -> LogLineView {
        LogLineView { level: self.level, message: self.message@ }
    }
}

/// The views of a list of log lines.
pub open spec fn log_views(logs: Seq<LogLine>) -> Seq<LogLineView> {
    logs.map_values(|l: LogLine| l@)
}

/// The one host behind all four capabilities.
pub struct CapstoneHarness {
    /// The permission for the workspace read.
    pub granted: bool,
    store: StorageEventsHost,
    logs: Vec<LogLine>,
}

/// The host state as a mathematical value.
#[verifier::ext_equal]
pub struct CapstoneView {
    pub granted: bool,
    pub store: StorageEventsView,
    pub logs: Seq<LogLineView>,
}

impl View for CapstoneHarness {
    type V = CapstoneView;

    closed spec fn view(&self) -> CapstoneView {
        CapstoneView { granted: self.granted, store: self.store@, logs: log_views(self.logs@) }
    }
}

/// The portfolio names that a granted read returns.
pub open spec fn canned_names() -> Seq<PortfolioNameView> {
    seq![
        PortfolioNameView { id: "p1"@, name: "Growth"@ },
        PortfolioNameView { id: "p2"@, name: "Income"@ },
    ]
}

/// The error of the workspace read without the grant.
pub open spec fn workspace_denied() -> ApiErrorView {
    ApiErrorView { code: "permission-denied"@, message: "workspace"@ + ": capability not granted"@ }
}

/// The error of a workspace call that the harness does not provide.
pub open spec fn not_found_error(what: Seq<char>) -> ApiErrorView {
    ApiErrorView {
        code: "not-found"@,
        message: "workspace: "@ + what + " not provided by the capstone harness"@,
    }
}

/// The canned portfolio names: two of them.
fn canned_portfolios() -> (names: Vec<PortfolioName>)
    ensures
        name_views(names@) == canned_names(),
{
    let mut names: Vec<PortfolioName> = Vec::new();
    names.push(PortfolioName { id: "p1".to_owned(), name: "Growth".to_owned() });
    names.push(PortfolioName { id: "p2".to_owned(), name: "Income".to_owned() });
    assert(name_views(names@) =~= canned_names());
    names
}

/// The permission-denied result of a gated capability.
fn denied(what: &str) -> (e: ApiError)
    ensures
        e@ == (ApiErrorView {
            code: "permission-denied"@,
            message: what@ + ": capability not granted"@,
        }),
{
    let message = String::from_str(what).concat(": capability not granted");
    ApiError { code: "permission-denied".to_owned(), message }
}

/// The not-found result of a workspace call that is not provided.
fn not_found(what: &str) -> (e: ApiError)
    ensures
        e@ == not_found_error(what@),
{
    let message = String::from_str("workspace: ").concat(what).concat(
        " not provided by the capstone harness",
    );
    ApiError { code: "not-found".to_owned(), message }
}

impl CapstoneHarness {
    /// The invariant of the harness: its store is valid.
    pub closed spec fn valid(&self) -> bool {
        self.store.valid()
    }

    /// Every valid harness keeps its store within the quotas and caps.
    pub proof fn lemma_within_limits(&self)
        requires
            self.valid(),
        ensures
            self@.store.within_limits(),
    {
        self.store.lemma_within_limits();
    }

    /// A host with the given gate decision, which the workspace read and the
    /// storage share.
    pub fn new(granted: bool) -> (host: CapstoneHarness)
        ensures
            host.valid(),
            host@ == (CapstoneView {
                granted,
                store: StorageEventsView { granted, kv: Map::empty(), events: seq![] },
                logs: seq![],
            }),
    {
        let host = CapstoneHarness {
            granted,
            store: StorageEventsHost::new(granted),
            logs: Vec::new(),
        };
        assert(host@.logs =~= seq![]);
        host
    }

    /// The captured events as pairs of kind and payload, in order.
    pub fn captured_events(&self) -> (events: Vec<(String, Vec<u8>)>)
        ensures
            events@.map_values(
                |e: (String, Vec<u8>)| EventView { kind: e.0@, payload: e.1@ },
            ) == self@.store.events,
    {
        let captured = self.store.captured_events();
        let mut out: Vec<(String, Vec<u8>)> = Vec::new();
        let mut i: usize = 0;
        while i < captured.len()
            invariant
                i <= captured@.len(),
                out@.len() == i,
                forall|j: int|
                    0 <= j < i ==> (#[trigger] out@[j]).0@ == captured@[j].kind@ && out@[j].1@
                        == captured@[j].payload@,
            decreases captured.len() - i,
        {
            out.push((captured[i].kind.clone(), copy_bytes(captured[i].payload.as_slice())));
            i += 1;
        }
        assert(out@.map_values(|e: (String, Vec<u8>)| EventView { kind: e.0@, payload: e.1@ })
            =~= self@.store.events);
        out
    }

    /// A value that the plugin stored.
    pub fn stored_value(&self, key: &str) -> (value: Option<&Vec<u8>>)
        requires
            self.valid(),
        ensures
            match value {
                Some(v) => self@.store.read(key@) == Some(v@),
                None => self@.store.read(key@) is None,
            },
    {
        self.store.stored_value(key)
    }

    /// The captured log lines, in order.
    pub fn captured_logs(&self) -> (logs: &[LogLine])
        ensures
            log_views(logs@) == self@.logs,
    {
        self.logs.as_slice()
    }

    /// The workspace's portfolio names, where the workspace is granted.
    pub fn read_portfolio_names(&mut self) -> (r: Result<Vec<PortfolioName>, ApiError>)
        ensures
            *final(self) == *old(self),
            match r {
                Ok(names) => old(self)@.granted && name_views(names@) == canned_names(),
                Err(e) => !old(self)@.granted && e@ == workspace_denied(),
            },
    {
        if !self.granted {
            return Err(denied("workspace"));
        }
        Ok(canned_portfolios())
    }

    /// Not provided: always the not-found error.
    pub fn read_sheet_structure(&mut self, portfolio_id: String) -> (r: Result<(), ApiError>)
        ensures
            *final(self) == *old(self),
            r is Err,
            r->Err_0@ == not_found_error("read-sheet-structure"@),
    {
        Err(not_found("read-sheet-structure"))
    }

    /// Not provided: always the not-found error.
    pub fn read_asset_count(&mut self, portfolio_id: String) -> (r: Result<(), ApiError>)
        ensures
            *final(self) == *old(self),
            r is Err,
            r->Err_0@ == not_found_error("read-asset-count"@),
    {
        Err(not_found("read-asset-count"))
    }

    /// Not provided: always the not-found error.
    pub fn read_currency_rates(&mut self) -> (r: Result<(), ApiError>)
        ensures
            *final(self) == *old(self),
            r is Err,
            r->Err_0@ == not_found_error("read-currency-rates"@),
    {
        Err(not_found("read-currency-rates"))
    }

    /// Not provided: always the not-found error.
    pub fn read_aggregated_values(&mut self, portfolio_id: String) -> (r: Result<(), ApiError>)
        ensures
            *final(self) == *old(self),
            r is Err,
            r->Err_0@ == not_found_error("read-aggregated-values"@),
    {
        Err(not_found("read-aggregated-values"))
    }

    /// Not provided: always the not-found error.
    pub fn write_external_file(&mut self, filename: String, content: Vec<u8>) -> (r: Result<
        (),
        ApiError,
    >)
        ensures
            *final(self) == *old(self),
            r is Err,
            r->Err_0@ == not_found_error("write-external-file"@),
    {
        Err(not_found("write-external-file"))
    }

    /// Reads a value from the storage.
    pub fn get(&mut self, key: String) -> (r: Result<Option<Vec<u8>>, ApiError>)
        requires
            old(self).valid(),
        ensures
            final(self).valid(),
            final(self)@ == old(self)@,
            match r {
                Ok(Some(v)) => old(self)@.store.granted && old(self)@.store.read(key@) == Some(v@),
                Ok(None) => old(self)@.store.granted && old(self)@.store.read(key@) is None,
                Err(e) => !old(self)@.store.granted && e@ == denied_error(),
            },
    {
        self.store.get(key)
    }

    /// Writes a value to the storage.
    pub fn set(&mut self, key: String, value: Vec<u8>) -> (r: Result<(), ApiError>)
        requires
            old(self).valid(),
        ensures
            final(self).valid(),
            final(self)@ == (CapstoneView {
                store: old(self)@.store.after_set(key@, value@),
                ..old(self)@
            }),
            match r {
                Ok(_) => old(self)@.store.set_refusal(key@, value@) is None,
                Err(e) => old(self)@.store.set_refusal(key@, value@) == Some(e@),
            },
    {
        self.store.set(key, value)
    }

    /// Deletes a key from the storage.
    pub fn delete(&mut self, key: String) -> (r: Result<(), ApiError>)
        requires
            old(self).valid(),
        ensures
            final(self).valid(),
            final(self)@ == (CapstoneView {
                store: old(self)@.store.after_delete(key@),
                ..old(self)@
            }),
            match r {
                Ok(_) => old(self)@.store.granted,
                Err(e) => !old(self)@.store.granted && e@ == denied_error(),
            },
    {
        self.store.delete(key)
    }

    /// Removes every value from the storage.
    pub fn clear(&mut self) -> (r: Result<(), ApiError>)
        requires
            old(self).valid(),
        ensures
            final(self).valid(),
            final(self)@ == (CapstoneView { store: old(self)@.store.after_clear(), ..old(self)@ }),
            match r {
                Ok(_) => old(self)@.store.granted,
                Err(e) => !old(self)@.store.granted && e@ == denied_error(),
            },
    {
        self.store.clear()
    }

    /// The keys of the storage, each once, in no promised order.
    pub fn list_keys(&mut self) -> (r: Result<Vec<String>, ApiError>)
        requires
            old(self).valid(),
        ensures
            final(self).valid(),
            final(self)@ == old(self)@,
            match r {
                Ok(keys) => {
                    let views = keys@.map_values(|k: String| k@);
                    &&& old(self)@.store.granted
                    &&& views.no_duplicates()
                    &&& views.to_set() == old(self)@.store.kv.dom()
                    &&& views.len() == old(self)@.store.kv.dom().len()
                },
                Err(e) => !old(self)@.store.granted && e@ == denied_error(),
            },
    {
        self.store.list_keys()
    }

    /// Captures an event.
    pub fn emit(&mut self, event: PluginEvent) -> (r: Result<(), ApiError>)
        requires
            old(self).valid(),
        ensures
            final(self).valid(),
            final(self)@ == (CapstoneView {
                store: old(self)@.store.after_emit(event@),
                ..old(self)@
            }),
            match r {
                Ok(_) => old(self)@.store.emit_refusal(event@) is None,
                Err(e) => old(self)@.store.emit_refusal(event@) == Some(e@),
            },
    {
        self.store.emit(event)
    }

    /// Captures a log line; never gated.
    pub fn write(&mut self, level: Level, message: String)
        requires
            old(self).valid(),
        ensures
            final(self).valid(),
            final(self)@ == (CapstoneView {
                logs: old(self)@.logs.push(LogLineView { level, message: message@ }),
                ..old(self)@
            }),
    {
        let ghost before = self.logs@;
        let line = LogLine { level, message };
        let ghost l = line@;
        self.logs.push(line);
        assert(log_views(self.logs@) =~= log_views(before).push(l));
    }
}

// ── Laws ────────────────────────────────────────────────────────────────────

/// A granted workspace read gives two portfolios, in order; a denied one says that
/// the capability is not granted, and a call that is not provided is not found.
pub proof fn law_workspace_serves_two_portfolios(what: Seq<char>)
    ensures
        canned_names().len() == 2,
        canned_names()[0].id == "p1"@ && canned_names()[0].name == "Growth"@,
        canned_names()[1].id == "p2"@ && canned_names()[1].name == "Income"@,
        workspace_denied() == (ApiErrorView {
            code: "permission-denied"@,
            message: "workspace: capability not granted"@,
        }),
        not_found_error(what) == (ApiErrorView {
            code: "not-found"@,
            message: "workspace: "@ + what + " not provided by the capstone harness"@,
        }),
{
    reveal_strlit("workspace");
    reveal_strlit(": capability not granted");
    reveal_strlit("workspace: capability not granted");
    assert("workspace"@ + ": capability not granted"@ =~= "workspace: capability not granted"@);
}

/// The captured log lines and events are handed out as they stand, oldest first.
pub proof fn law_captures_are_handed_out_in_order(
    h: &CapstoneHarness,
    logs: &[LogLine],
    events: Vec<(String, Vec<u8>)>,
    i: int,
)
    requires
        call_ensures(CapstoneHarness::captured_logs, (h,), logs),
        call_ensures(CapstoneHarness::captured_events, (h,), events),
    ensures
        logs@.len() == h@.logs.len(),
        events@.len() == h@.store.events.len(),
        0 <= i < logs@.len() ==> logs@[i].level == h@.logs[i].level && logs@[i].message@
            == h@.logs[i].message,
        0 <= i < events@.len() ==> events@[i].0@ == h@.store.events[i].kind && events@[i].1@
            == h@.store.events[i].payload,
{
    let pairs = events@.map_values(
        |e: (String, Vec<u8>)| EventView { kind: e.0@, payload: e.1@ },
    );
    if 0 <= i < logs@.len() {
        assert(log_views(logs@)[i] == logs@[i]@);
    }
    if 0 <= i < events@.len() {
        assert(pairs[i] == EventView { kind: events@[i].0@, payload: events@[i].1@ });
    }
}

/// Emitting captures the event behind those before it exactly where the caps of
/// 65536 payload bytes and 256 events allow it, and changes nothing else.
pub proof fn law_emit_captures_in_order(
    h: &mut CapstoneHarness,
    event: PluginEvent,
    r: Result<(), ApiError>,
)
    requires
        call_ensures(CapstoneHarness::emit, (h, event), r),
    ensures
        r is Ok <==> event.payload@.len() <= 65536 && old(h)@.store.events.len() < 256,
        r is Ok ==> final(h)@.store.events.len() == old(h)@.store.events.len() + 1 && final(h)@.store.events
            == old(h)@.store.events.push(event@),
        r is Err ==> final(h)@.store.events == old(h)@.store.events,
        final(h)@.store.kv == old(h)@.store.kv,
        final(h)@.store.granted == old(h)@.store.granted,
        final(h)@.logs == old(h)@.logs,
        final(h)@.granted == old(h)@.granted,
{
}

/// A write is accepted exactly with the grant and within the quotas of 128 keys
/// and 262144 value bytes; it stores just this value under just this key.
pub proof fn law_set_stores_the_value(
    h: &mut CapstoneHarness,
    key: String,
    value: Vec<u8>,
    r: Result<(), ApiError>,
)
    requires
        call_ensures(CapstoneHarness::set, (h, key, value), r),
    ensures
        r is Ok <==> old(h)@.store.granted && (old(h)@.store.kv.contains_key(key@) || old(h)@.store.kv.dom().len()
            < 128) && value_bytes(old(h)@.store.kv) - (if old(h)@.store.kv.contains_key(key@) {
            old(h)@.store.kv[key@].len() as int
        } else {
            0
        }) + value@.len() <= 262144,
        r is Ok ==> final(h)@.store.kv == old(h)@.store.kv.insert(key@, value@),
        r is Err ==> final(h)@.store.kv == old(h)@.store.kv,
        final(h)@.store.events == old(h)@.store.events,
        final(h)@.store.granted == old(h)@.store.granted,
        final(h)@.logs == old(h)@.logs,
        final(h)@.granted == old(h)@.granted,
{
}

/// A read gives the stored bytes, nothing for an absent key, and an error exactly
/// without the grant; it changes nothing.
pub proof fn law_get_gives_the_value(
    h: &mut CapstoneHarness,
    key: String,
    r: Result<Option<Vec<u8>>, ApiError>,
)
    requires
        call_ensures(CapstoneHarness::get, (h, key), r),
    ensures
        r is Err <==> !old(h)@.store.granted,
        r matches Ok(Some(v)) ==> old(h)@.store.kv.contains_key(key@) && v@ == old(h)@.store.kv[key@],
        r matches Ok(None) ==> !old(h)@.store.kv.contains_key(key@),
        r matches Err(e) ==> e@.code == "permission-denied"@,
        final(h)@ == old(h)@,
{
}

/// A deletion removes just its key, and fails exactly without the grant.
pub proof fn law_delete_removes_the_key(
    h: &mut CapstoneHarness,
    key: String,
    r: Result<(), ApiError>,
)
    requires
        call_ensures(CapstoneHarness::delete, (h, key), r),
    ensures
        r is Ok <==> old(h)@.store.granted,
        r is Ok ==> final(h)@.store.kv == old(h)@.store.kv.remove(key@),
        r is Err ==> final(h)@.store.kv == old(h)@.store.kv,
        final(h)@.store.events == old(h)@.store.events,
        final(h)@.store.granted == old(h)@.store.granted,
        final(h)@.logs == old(h)@.logs,
        final(h)@.granted == old(h)@.granted,
{
}

/// A clear leaves no key, and fails exactly without the grant.
pub proof fn law_clear_removes_every_key(h: &mut CapstoneHarness, r: Result<(), ApiError>)
    requires
        call_ensures(CapstoneHarness::clear, (h,), r),
    ensures
        r is Ok <==> old(h)@.store.granted,
        r is Ok ==> final(h)@.store.kv.dom() == Set::<Seq<char>>::empty(),
        r is Err ==> final(h)@.store.kv == old(h)@.store.kv,
        final(h)@.store.events == old(h)@.store.events,
        final(h)@.store.granted == old(h)@.store.granted,
        final(h)@.logs == old(h)@.logs,
        final(h)@.granted == old(h)@.granted,
{
    assert(Map::<Seq<char>, Seq<u8>>::empty().dom() =~= Set::empty());
}

/// A listing names each key once and nothing else, and fails exactly without the
/// grant.
pub proof fn law_list_names_each_key_once(
    h: &mut CapstoneHarness,
    r: Result<Vec<String>, ApiError>,
    key: Seq<char>,
)
    requires
        call_ensures(CapstoneHarness::list_keys, (h,), r),
    ensures
        r is Ok <==> old(h)@.store.granted,
        r matches Ok(keys) ==> (keys@.map_values(|k: String| k@).contains(key)
            <==> old(h)@.store.kv.contains_key(key)) && keys@.map_values(|k: String| k@).no_duplicates(),
        final(h)@ == old(h)@,
{
    if let Ok(keys) = r {
        let views = keys@.map_values(|k: String| k@);
        assert(views.contains(key) <==> views.to_set().contains(key));
        assert(old(h)@.store.kv.dom().contains(key) <==> old(h)@.store.kv.contains_key(key));
    }
}

/// A log line is captured behind those before it, and nothing else changes.
pub proof fn law_log_lines_are_captured_in_order(
    h: &mut CapstoneHarness,
    level: Level,
    message: String,
)
    requires
        call_ensures(CapstoneHarness::write, (h, level, message), ()),
    ensures
        final(h)@.logs == old(h)@.logs.push(LogLineView { level, message: message@ }),
        final(h)@.store == old(h)@.store,
        final(h)@.granted == old(h)@.granted,
{
}

/// The workspace read gives the portfolios exactly with the grant.
pub proof fn law_workspace_is_gated(
    h: &mut CapstoneHarness,
    r: Result<Vec<PortfolioName>, ApiError>,
)
    requires
        call_ensures(CapstoneHarness::read_portfolio_names, (h,), r),
    ensures
        r is Ok <==> old(h)@.granted,
        r matches Ok(names) ==> names@.len() == 2 && names@[0].id@ == "p1"@ && names@[0].name@
            == "Growth"@ && names@[1].id@ == "p2"@ && names@[1].name@ == "Income"@,
        r matches Err(e) ==> e@.code == "permission-denied"@,
        final(h)@ == old(h)@,
{
    if let Ok(names) = r {
        assert(name_views(names@).len() == 2);
        assert(name_views(names@)[0] == names@[0]@);
        assert(name_views(names@)[1] == names@[1]@);
    }
}

} // verus!
