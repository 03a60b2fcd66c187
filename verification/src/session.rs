//! The Socket Session: the engine around one CAN socket.
//!
//! The session owns the two indices and the catalog, resolves the caller's
//! filter list, decodes frames, and decides every retry and reconnection.
//! The blocking work itself (polling for the DBC file, opening the socket,
//! installing filters, reading frames, sleeping) is carried out by the
//! caller that drives [`SessionMachine::step`] and [`CanUtils::get_signals`]
//! and feeds the observed outcome back in.
use vstd::prelude::*;
use crate::catalog::{parse_dbc, Catalog};
use crate::dbc::{spec_id_index, spec_name_index};
use crate::decode::{decode_frame, spec_decode_frame, spec_result_view};
use crate::errors::CanError;
use crate::index::{CanIndex, NameIndex};
use crate::spec_extended_id;

verus! {

/// The exact-match acceptance mask installed with every hardware filter.
pub const FILTER_MASK: u32 = 0x1FFF_FFFF;

/// One entry of the caller's filter list: a raw numeric identifier, or a
/// message name to be resolved through the Name Index.
pub enum FilterSpec {
    ById(u32),
    ByName(String),
}

/// What one filter entry resolves to under a Name Index mapping: raw
/// identifiers are normalized to extended form, names must be indexed.
pub open spec fn spec_resolve_filter(m: Map<Seq<u8>, u32>, f: FilterSpec) -> Option<u32> {
    match f {
        FilterSpec::ById(raw) => Some(spec_extended_id(raw)),
        FilterSpec::ByName(s) => {
            let key = vstd::utf8::encode_utf8(s@);
            if m.dom().contains(key) {
                Some(m[key])
            } else {
                None
            }
        },
    }
}

/// What a whole filter list resolves to: every entry in order, or nothing as
/// soon as one name is unknown.
pub open spec fn spec_resolve_filters(m: Map<Seq<u8>, u32>, fs: Seq<FilterSpec>) -> Option<
    Seq<u32>,
>
    decreases fs.len(),
{
    if fs.len() == 0 {
        Some(Seq::<u32>::empty())
    } else {
        match spec_resolve_filter(m, fs.last()) {
            None => None,
            Some(id) => match spec_resolve_filters(m, fs.drop_last()) {
                None => None,
                Some(rest) => Some(rest.push(id)),
            },
        }
    }
}

/// Resolve the caller's filter list through the Name Index.
pub fn build_filters(index: &NameIndex, specs: &Vec<FilterSpec>) -> (r: Result<Vec<u32>, CanError>)
    ensures
        (r is Ok) == (spec_resolve_filters(index.model(), specs@) is Some),
        r matches Ok(v) ==> spec_resolve_filters(index.model(), specs@) == Some(v@),
        r matches Err(e) ==> e == CanError::ConfigError,
{
    let mut out: Vec<u32> = Vec::new();
    let mut i: usize = 0;
    proof {
        assert(specs@.take(0) =~= Seq::<FilterSpec>::empty());
    }
    while i < specs.len()
        invariant
            i <= specs@.len(),
            spec_resolve_filters(index.model(), specs@.take(i as int)) == Some(out@),
        decreases specs@.len() - i,
    {
        proof {
            assert(specs@.take(i + 1).drop_last() =~= specs@.take(i as int));
            assert(specs@.take(i + 1).last() == specs@[i as int]);
        }
        match &specs[i] {
            FilterSpec::ById(raw) => {
                out.push(crate::extended_id(*raw));
            },
            FilterSpec::ByName(s) => {
                match index.lookup(s.as_str().as_bytes()) {
                    Some(id) => {
                        out.push(id);
                    },
                    None => {
                        proof {
                            lemma_resolve_filters_none(index.model(), specs@, i as int);
                        }
                        return Err(CanError::ConfigError);
                    },
                }
            },
        }
        i = i + 1;
    }
    proof {
        assert(specs@.take(specs@.len() as int) =~= specs@);
    }
    Ok(out)
}

/// A list with one unresolvable entry resolves to nothing.
proof fn lemma_resolve_filters_none(m: Map<Seq<u8>, u32>, fs: Seq<FilterSpec>, i: int)
    requires
        0 <= i < fs.len(),
        spec_resolve_filter(m, fs[i]) is None,
    ensures
        spec_resolve_filters(m, fs) is None,
    decreases fs.len(),
{
    if fs.len() > 0 {
        if i == fs.len() - 1 {
        } else {
            assert(fs.drop_last()[i] == fs[i]);
            lemma_resolve_filters_none(m, fs.drop_last(), i);
        }
    }
}

/// What one read of the socket produced, as observed by the driver.
pub enum FrameOutcome {
    /// A frame with its raw identifier and payload bytes.
    Frame(u32, Vec<u8>),
    /// The read timed out.
    Timeout,
    /// The read failed at the OS boundary.
    SocketError,
    /// The frame stream ended.
    StreamClosed,
}

/// What the acquisition step decides: hand a result to the caller, or
/// reconnect the socket and read again.
pub enum SignalsOutcome {
    Deliver(Result<Vec<(String, u32)>, CanError>),
    Reconnect,
}

/// The CAN acquisition engine: interface name, resolved filters, the two
/// indices and the catalog, built together from one DBC text.
pub struct CanUtils {
    canport: String,
    filters: Vec<u32>,
    name_index: NameIndex,
    id_and_signal: CanIndex,
    can_info: Catalog,
}

impl CanUtils {
    /// The configured interface name.
    pub closed spec fn spec_canport(self) -> Seq<char> {
        self.canport@
    }

    /// The resolved extended filter identifiers.
    pub closed spec fn spec_filters(self) -> Seq<u32> {
        self.filters@
    }

    /// The Name Index.
    pub closed spec fn name_index(self) -> NameIndex {
        self.name_index
    }

    /// The identifier index.
    pub closed spec fn id_index(self) -> CanIndex {
        self.id_and_signal
    }

    /// The catalog.
    pub closed spec fn catalog(self) -> Catalog {
        self.can_info
    }

    /// Well-formedness: the catalog holds in-window descriptors only.
    pub open spec fn wf(self) -> bool {
        self.catalog().wf()
    }

    /// Build the engine from the interface name, the DBC text, and the
    /// caller's filter list. Fails exactly when a filter names a message the
    /// DBC does not declare.
    pub fn new(ifname: &str, dbc_text: &[u8], ids_filter: Vec<FilterSpec>) -> (r: Result<
        CanUtils,
        CanError,
    >)
        ensures
            (r is Ok) == (spec_resolve_filters(spec_name_index(dbc_text@), ids_filter@) is Some),
            r matches Ok(c) ==> {
                &&& c.wf()
                &&& c.spec_canport() == ifname@
                &&& c.name_index().model() == spec_name_index(dbc_text@)
                &&& c.id_index().model() == spec_id_index(dbc_text@)
                &&& Some(c.spec_filters()) == spec_resolve_filters(
                    spec_name_index(dbc_text@),
                    ids_filter@,
                )
            },
            r matches Err(e) ==> e == CanError::ConfigError,
    {
        let (name_index, id_and_signal, can_info) = parse_dbc(dbc_text);
        let filters = match build_filters(&name_index, &ids_filter) {
            Ok(v) => v,
            Err(e) => {
                return Err(e);
            },
        };
        Ok(
            CanUtils {
                canport: ifname.to_owned(),
                filters,
                name_index,
                id_and_signal,
                can_info,
            },
        )
    }

    /// The resolved filter identifiers, for installation on the socket.
    pub fn filters(&self) -> (r: &Vec<u32>)
        ensures
            r@ == self.spec_filters(),
    {
        &self.filters
    }

    /// The configured interface name, for reopening the socket.
    pub fn canport(&self) -> (r: &String)
        ensures
            r@ == self.spec_canport(),
    {
        &self.canport
    }

    /// Decode one raw frame against the engine's index and catalog.
    pub fn decode(&self, id: u32, data: &[u8]) -> (r: Result<Vec<(String, u32)>, CanError>)
        requires
            self.wf(),
            data@.len() <= 8,
        ensures
            ({
                let spec_r = spec_decode_frame(self.catalog().lib(), self.id_index().model(), id, data@);
                &&& (r matches Ok(v) ==> spec_r matches Ok(s) && spec_result_view(v@) =~= s)
                &&& (r matches Err(e) ==> spec_r == Err::<Seq<(Seq<u8>, u32)>, CanError>(e))
            }),
    {
        decode_frame(&self.can_info, &self.id_and_signal, id, data)
    }

    /// The acquisition decision on one read outcome: a received frame is
    /// decoded and its result delivered, so the caller only ever sees
    /// frame-level outcomes; a timeout, an OS-level read error, or an ended
    /// frame stream is a transport failure, recovered by reconnection
    /// instead of reaching the caller.
    pub fn get_signals(&self, outcome: &FrameOutcome) -> (r: SignalsOutcome)
        requires
            self.wf(),
            outcome matches FrameOutcome::Frame(_, d) ==> d@.len() <= 8,
        ensures
            ({
                match outcome {
                    FrameOutcome::Frame(id, data) => {
                        let spec_r = spec_decode_frame(
                            self.catalog().lib(),
                            self.id_index().model(),
                            *id,
                            data@,
                        );
                        &&& r is Deliver
                        &&& (r matches SignalsOutcome::Deliver(res) ==> {
                            &&& (res matches Ok(v) ==> spec_r matches Ok(s) && spec_result_view(v@)
                                =~= s)
                            &&& (res matches Err(e) ==> spec_r == Err::<
                                Seq<(Seq<u8>, u32)>,
                                CanError,
                            >(e))
                        })
                    },
                    FrameOutcome::Timeout => r is Reconnect,
                    FrameOutcome::SocketError => r is Reconnect,
                    FrameOutcome::StreamClosed => r is Reconnect,
                }
            }),
    {
        match outcome {
            FrameOutcome::Frame(id, data) => SignalsOutcome::Deliver(
                self.decode(*id, data.as_slice()),
            ),
            FrameOutcome::Timeout => SignalsOutcome::Reconnect,
            FrameOutcome::SocketError => SignalsOutcome::Reconnect,
            FrameOutcome::StreamClosed => SignalsOutcome::Reconnect,
        }
    }
}

/// The resilience states of a session (spec section on the Socket Session).
#[derive(Debug, Clone, Copy, PartialEq, Eq, Structural)]
pub enum SessionState {
    /// The DBC file does not exist yet; poll for it.
    AwaitingConfig,
    /// The DBC file exists; build catalog and indices from it.
    Loading,
    /// Open the socket on the configured interface.
    Opening,
    /// Install the resolved filters on the open socket.
    Filtering,
    /// Frames are available; read and decode.
    Streaming,
    /// A read failed; discard the socket handle before reopening.
    Reconnecting,
    /// The configured retry budget ran out.
    GivenUp,
}

/// What the driving loop observed while carrying out the pending action.
#[derive(Debug, Clone, Copy, PartialEq, Eq, Structural)]
pub enum SessionEvent {
    ConfigMissing,
    ConfigFound,
    LoadFailed,
    LoadSucceeded,
    OpenFailed,
    OpenSucceeded,
    FiltersApplied,
    FilterFailed,
    FrameHandled,
    ReadTimeout,
    ReadError,
    SocketDropped,
}

/// What the driving loop must do next.
#[derive(Debug, Clone, Copy, PartialEq, Eq, Structural)]
pub enum SessionAction {
    /// Check whether the DBC file exists now.
    PollConfig,
    /// Sleep one backoff interval, then carry out the state's pending action.
    Retry,
    /// Build catalog and indices from the DBC file.
    LoadCatalog,
    /// Open the CAN socket.
    OpenSocket,
    /// Install the filters; failure is logged and non-fatal.
    ApplyFilters,
    /// Read one frame (with the configured timeout) and decode it.
    ReadFrame,
    /// Discard the failed socket handle.
    DropSocket,
    /// Stop: the retry budget is exhausted.
    GiveUp,
}

/// The pending action of each state, carried out when no event moves the
/// machine elsewhere.
pub open spec fn spec_pending_action(s: SessionState) -> SessionAction {
    match s {
        SessionState::AwaitingConfig => SessionAction::PollConfig,
        SessionState::Loading => SessionAction::LoadCatalog,
        SessionState::Opening => SessionAction::OpenSocket,
        SessionState::Filtering => SessionAction::ApplyFilters,
        SessionState::Streaming => SessionAction::ReadFrame,
        SessionState::Reconnecting => SessionAction::DropSocket,
        SessionState::GivenUp => SessionAction::GiveUp,
    }
}

/// The transition table of the session. Configuration and socket failures
/// retry; filter failure is degraded but non-fatal; a read timeout or error
/// leaves Streaming for Reconnecting, whose only continuation is reopening.
/// An event that does not belong to the state leaves it unchanged.
pub open spec fn spec_transition(s: SessionState, e: SessionEvent) -> (SessionState, SessionAction) {
    match (s, e) {
        (SessionState::AwaitingConfig, SessionEvent::ConfigMissing) => (
            SessionState::AwaitingConfig,
            SessionAction::Retry,
        ),
        (SessionState::AwaitingConfig, SessionEvent::ConfigFound) => (
            SessionState::Loading,
            SessionAction::LoadCatalog,
        ),
        (SessionState::Loading, SessionEvent::LoadFailed) => (
            SessionState::AwaitingConfig,
            SessionAction::Retry,
        ),
        (SessionState::Loading, SessionEvent::LoadSucceeded) => (
            SessionState::Opening,
            SessionAction::OpenSocket,
        ),
        (SessionState::Opening, SessionEvent::OpenFailed) => (
            SessionState::Opening,
            SessionAction::Retry,
        ),
        (SessionState::Opening, SessionEvent::OpenSucceeded) => (
            SessionState::Filtering,
            SessionAction::ApplyFilters,
        ),
        (SessionState::Filtering, SessionEvent::FiltersApplied) => (
            SessionState::Streaming,
            SessionAction::ReadFrame,
        ),
        (SessionState::Filtering, SessionEvent::FilterFailed) => (
            SessionState::Streaming,
            SessionAction::ReadFrame,
        ),
        (SessionState::Streaming, SessionEvent::FrameHandled) => (
            SessionState::Streaming,
            SessionAction::ReadFrame,
        ),
        (SessionState::Streaming, SessionEvent::ReadTimeout) => (
            SessionState::Reconnecting,
            SessionAction::DropSocket,
        ),
        (SessionState::Streaming, SessionEvent::ReadError) => (
            SessionState::Reconnecting,
            SessionAction::DropSocket,
        ),
        (SessionState::Reconnecting, SessionEvent::SocketDropped) => (
            SessionState::Opening,
            SessionAction::OpenSocket,
        ),
        _ => (s, spec_pending_action(s)),
    }
}

/// The retry-and-reconnect machine of one session. The driving loop carries
/// out the returned action and feeds the observed event back in; the machine
/// decides every transition and counts the retry budget.
pub struct SessionMachine {
    state: SessionState,
    retries: u32,
    max_retries: Option<u32>,
    retry_interval_ms: u64,
}

impl SessionMachine {
    /// The current state.
    pub closed spec fn state(self) -> SessionState {
        self.state
    }

    /// How many retries were taken so far.
    pub closed spec fn spec_retries(self) -> u32 {
        self.retries
    }

    /// The configured retry budget; retry forever when absent.
    pub closed spec fn spec_max_retries(self) -> Option<u32> {
        self.max_retries
    }

    /// The configured backoff interval in milliseconds.
    pub closed spec fn spec_retry_interval_ms(self) -> u64 {
        self.retry_interval_ms
    }

    /// A fresh machine waiting for its configuration, with the given backoff
    /// interval and optional retry budget. The base configuration retries
    /// forever with one second of backoff.
    pub fn new(retry_interval_ms: u64, max_retries: Option<u32>) -> (r: Self)
        ensures
            r.state() == SessionState::AwaitingConfig,
            r.spec_retries() == 0,
            r.spec_max_retries() == max_retries,
            r.spec_retry_interval_ms() == retry_interval_ms,
    {
        SessionMachine { state: SessionState::AwaitingConfig, retries: 0, max_retries, retry_interval_ms }
    }

    /// The backoff interval, for the driving loop's sleep.
    pub fn retry_interval_ms(&self) -> (r: u64)
        ensures
            r == self.spec_retry_interval_ms(),
    {
        self.retry_interval_ms
    }

    /// The current state, for the driving loop.
    pub fn current_state(&self) -> (r: SessionState)
        ensures
            r == self.state(),
    {
        self.state
    }

    /// Feed one observed event in; moves the machine along the transition
    /// table and yields the next action. A retry consumes one unit of the
    /// budget; a machine whose budget is exhausted gives up instead.
    pub fn step(&mut self, e: SessionEvent) -> (a: SessionAction)
        ensures
            ({
                let (ns, na) = spec_transition(old(self).state(), e);
                &&& final(self).spec_max_retries() == old(self).spec_max_retries()
                &&& final(self).spec_retry_interval_ms() == old(self).spec_retry_interval_ms()
                &&& if na == SessionAction::Retry {
                    if old(self).spec_max_retries() matches Some(m) && old(self).spec_retries()
                        >= m {
                        &&& final(self).state() == SessionState::GivenUp
                        &&& a == SessionAction::GiveUp
                        &&& final(self).spec_retries() == old(self).spec_retries()
                    } else {
                        &&& final(self).state() == ns
                        &&& a == SessionAction::Retry
                        &&& final(self).spec_retries() == if old(self).spec_retries() < u32::MAX {
                            old(self).spec_retries() + 1
                        } else {
                            old(self).spec_retries() as int
                        }
                    }
                } else {
                    &&& final(self).state() == ns
                    &&& a == na
                    &&& final(self).spec_retries() == old(self).spec_retries()
                }
            }),
    {
        let (ns, na) = self.transition(e);
        if na == SessionAction::Retry {
            let exhausted = match self.max_retries {
                Some(m) => self.retries >= m,
                None => false,
            };
            if exhausted {
                self.state = SessionState::GivenUp;
                return SessionAction::GiveUp;
            }
            if self.retries < u32::MAX {
                self.retries = self.retries + 1;
            }
        }
        self.state = ns;
        na
    }

    fn transition(&self, e: SessionEvent) -> (r: (SessionState, SessionAction))
        ensures
            r == spec_transition(self.state(), e),
    {
        match (self.state, e) {
            (SessionState::AwaitingConfig, SessionEvent::ConfigMissing) => (
                SessionState::AwaitingConfig,
                SessionAction::Retry,
            ),
            (SessionState::AwaitingConfig, SessionEvent::ConfigFound) => (
                SessionState::Loading,
                SessionAction::LoadCatalog,
            ),
            (SessionState::Loading, SessionEvent::LoadFailed) => (
                SessionState::AwaitingConfig,
                SessionAction::Retry,
            ),
            (SessionState::Loading, SessionEvent::LoadSucceeded) => (
                SessionState::Opening,
                SessionAction::OpenSocket,
            ),
            (SessionState::Opening, SessionEvent::OpenFailed) => (
                SessionState::Opening,
                SessionAction::Retry,
            ),
            (SessionState::Opening, SessionEvent::OpenSucceeded) => (
                SessionState::Filtering,
                SessionAction::ApplyFilters,
            ),
            (SessionState::Filtering, SessionEvent::FiltersApplied) => (
                SessionState::Streaming,
                SessionAction::ReadFrame,
            ),
            (SessionState::Filtering, SessionEvent::FilterFailed) => (
                SessionState::Streaming,
                SessionAction::ReadFrame,
            ),
            (SessionState::Streaming, SessionEvent::FrameHandled) => (
                SessionState::Streaming,
                SessionAction::ReadFrame,
            ),
            (SessionState::Streaming, SessionEvent::ReadTimeout) => (
                SessionState::Reconnecting,
                SessionAction::DropSocket,
            ),
            (SessionState::Streaming, SessionEvent::ReadError) => (
                SessionState::Reconnecting,
                SessionAction::DropSocket,
            ),
            (SessionState::Reconnecting, SessionEvent::SocketDropped) => (
                SessionState::Opening,
                SessionAction::OpenSocket,
            ),
            _ => {
                let pending = match self.state {
                    SessionState::AwaitingConfig => SessionAction::PollConfig,
                    SessionState::Loading => SessionAction::LoadCatalog,
                    SessionState::Opening => SessionAction::OpenSocket,
                    SessionState::Filtering => SessionAction::ApplyFilters,
                    SessionState::Streaming => SessionAction::ReadFrame,
                    SessionState::Reconnecting => SessionAction::DropSocket,
                    SessionState::GivenUp => SessionAction::GiveUp,
                };
                (self.state, pending)
            },
        }
    }
}

/// Reconnection discipline. A read timeout or OS-level read error always
/// leaves Streaming for Reconnecting; frames are only ever read in Streaming;
/// Streaming is reentered exclusively through Filtering, which is entered
/// exclusively by one successful socket reopening. So between a failed read
/// and the next attempted frame stand exactly one successful open and one
/// filter application (successful or logged as failed).
pub proof fn lemma_reconnection_discipline(s: SessionState, e: SessionEvent)
    ensures
        s == SessionState::Streaming && (e == SessionEvent::ReadTimeout || e
            == SessionEvent::ReadError) ==> spec_transition(s, e) == (
            SessionState::Reconnecting,
            SessionAction::DropSocket,
        ),
        spec_transition(s, e).1 == SessionAction::ReadFrame ==> spec_transition(s, e).0
            == SessionState::Streaming,
        spec_transition(s, e).0 == SessionState::Streaming ==> (s == SessionState::Filtering || s
            == SessionState::Streaming),
        spec_transition(s, e).0 == SessionState::Filtering ==> (s == SessionState::Opening && e
            == SessionEvent::OpenSucceeded) || s == SessionState::Filtering,
        s == SessionState::Filtering ==> spec_transition(s, e).1 != SessionAction::OpenSocket,
{
}

} // verus!
