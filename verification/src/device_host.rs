//! Device host composition: profiles, sites, placement, and the paced
//! adapter loop that a composed device session runs.
use vstd::prelude::*;
use vstd::string::*;

use crate::config::symbol_views;
use crate::symbol::{qualified_symbol, qualified_text, Symbol, SymbolView};
use crate::text::{concat2, owned};

verus! {

broadcast use vstd::string::group_string_axioms;

/// Stream-facing profile advertised by a composed device route.
#[derive(Clone, Debug, PartialEq, Eq)]
pub struct DeviceProfile {
    /// Stable device identity.
    pub device: Symbol,
    /// Sample streams this device can emit.
    pub streams: Vec<Symbol>,
    /// Input controls accepted by the device.
    pub inputs: Vec<Symbol>,
    /// Output actuators exposed by the device.
    pub outputs: Vec<Symbol>,
    /// Sample kinds the provider may return.
    pub sample_kinds: Vec<Symbol>,
}

/// Mathematical form of a profile.
pub struct ProfileView {
    pub device: SymbolView,
    pub streams: Seq<SymbolView>,
    pub inputs: Seq<SymbolView>,
    pub outputs: Seq<SymbolView>,
    pub sample_kinds: Seq<SymbolView>,
}

/// Whether two symbol lists are the same.
fn same_symbols(a: &Vec<Symbol>, b: &Vec<Symbol>) -> (r: bool)
    ensures
        r == (symbol_views(a@) == symbol_views(b@)),
{
    if a.len() != b.len() {
        proof {
            assert(symbol_views(a@).len() != symbol_views(b@).len());
        }
        return false;
    }
    let mut i: usize = 0;
    while i < a.len()
        invariant
            a@.len() == b@.len(),
            i <= a@.len(),
            forall|j: int| 0 <= j < i ==> #[trigger] a@[j].view() == b@[j].view(),
        decreases a@.len() - i,
    {
        if !a[i].same(&b[i]) {
            proof {
                assert(symbol_views(a@)[i as int] != symbol_views(b@)[i as int]);
            }
            return false;
        }
        i = i + 1;
    }
    assert(symbol_views(a@) =~= symbol_views(b@));
    true
}

/// Copies a symbol list.
fn copy_symbols(a: &Vec<Symbol>) -> (r: Vec<Symbol>)
    ensures
        symbol_views(r@) == symbol_views(a@),
{
    let mut r: Vec<Symbol> = Vec::new();
    let mut i: usize = 0;
    while i < a.len()
        invariant
            i <= a@.len(),
            r@.len() == i,
            forall|j: int| 0 <= j < i ==> #[trigger] r@[j].view() == a@[j].view(),
        decreases a@.len() - i,
    {
        r.push(a[i].copy());
        i = i + 1;
    }
    assert(symbol_views(r@) =~= symbol_views(a@));
    r
}

/// A qualified symbol built from two literals.
fn sym(namespace: &str, name: &str) -> (r: Symbol)
    ensures
        r.view() == qualified_symbol(namespace@, name@),
{
    Symbol::qualified(owned(namespace), owned(name))
}

impl DeviceProfile {
    pub open spec fn view(&self) -> ProfileView {
        ProfileView {
            device: self.device.view(),
            streams: symbol_views(self.streams@),
            inputs: symbol_views(self.inputs@),
            outputs: symbol_views(self.outputs@),
            sample_kinds: symbol_views(self.sample_kinds@),
        }
    }

    /// Builds a device profile from stable route metadata.
    pub fn new(
        device: Symbol,
        streams: Vec<Symbol>,
        inputs: Vec<Symbol>,
        outputs: Vec<Symbol>,
        sample_kinds: Vec<Symbol>,
    ) -> (r: Self)
        ensures
            r.device == device,
            r.streams == streams,
            r.inputs == inputs,
            r.outputs == outputs,
            r.sample_kinds == sample_kinds,
    {
        DeviceProfile { device, streams, inputs, outputs, sample_kinds }
    }

    /// The deterministic modeled edge profile used by tests and docs.
    pub open spec fn modeled_edge_view() -> ProfileView {
        ProfileView {
            device: qualified_symbol("device"@, "modeled-edge"@),
            streams: seq![
                qualified_symbol("device/stream"@, "battery"@),
                qualified_symbol("device/stream"@, "motion"@),
            ],
            inputs: seq![qualified_symbol("device/input"@, "button"@)],
            outputs: seq![
                qualified_symbol("device/output"@, "screen"@),
                qualified_symbol("device/output"@, "haptic"@),
            ],
            sample_kinds: seq![qualified_symbol("device/sample"@, "caps"@)],
        }
    }

    /// Builds the deterministic modeled edge profile.
    pub fn modeled_edge() -> (r: Self)
        ensures
            r.view() == Self::modeled_edge_view(),
    {
        let streams = vec![sym("device/stream", "battery"), sym("device/stream", "motion")];
        let inputs = vec![sym("device/input", "button")];
        let outputs = vec![sym("device/output", "screen"), sym("device/output", "haptic")];
        let sample_kinds = vec![sym("device/sample", "caps")];
        let r = DeviceProfile::new(
            sym("device", "modeled-edge"),
            streams,
            inputs,
            outputs,
            sample_kinds,
        );
        assert(r.view().streams =~= Self::modeled_edge_view().streams);
        assert(r.view().inputs =~= Self::modeled_edge_view().inputs);
        assert(r.view().outputs =~= Self::modeled_edge_view().outputs);
        assert(r.view().sample_kinds =~= Self::modeled_edge_view().sample_kinds);
        r
    }

    /// Returns whether this profile advertises `sample_kind`.
    pub fn supports_sample_kind(&self, sample_kind: &Symbol) -> (r: bool)
        ensures
            r == symbol_views(self.sample_kinds@).contains(sample_kind.view()),
    {
        let mut i: usize = 0;
        while i < self.sample_kinds.len()
            invariant
                i <= self.sample_kinds@.len(),
                forall|j: int| 0 <= j < i ==> #[trigger] self.sample_kinds@[j].view() != sample_kind.view(),
            decreases self.sample_kinds@.len() - i,
        {
            if self.sample_kinds[i].same(sample_kind) {
                proof {
                    assert(symbol_views(self.sample_kinds@)[i as int] == sample_kind.view());
                }
                return true;
            }
            i = i + 1;
        }
        proof {
            if symbol_views(self.sample_kinds@).contains(sample_kind.view()) {
                let j = choose|j: int|
                    0 <= j < symbol_views(self.sample_kinds@).len() && symbol_views(
                        self.sample_kinds@,
                    )[j] == sample_kind.view();
                assert(self.sample_kinds@[j].view() == sample_kind.view());
            }
        }
        false
    }

    /// Whether two profiles are the same.
    pub fn same(&self, other: &DeviceProfile) -> (r: bool)
        ensures
            r == (self.view() == other.view()),
    {
        self.device.same(&other.device) && same_symbols(&self.streams, &other.streams)
            && same_symbols(&self.inputs, &other.inputs) && same_symbols(&self.outputs, &other.outputs)
            && same_symbols(&self.sample_kinds, &other.sample_kinds)
    }

    /// A copy of this profile.
    pub fn copy(&self) -> (r: Self)
        ensures
            r.view() == self.view(),
    {
        DeviceProfile {
            device: self.device.copy(),
            streams: copy_symbols(&self.streams),
            inputs: copy_symbols(&self.inputs),
            outputs: copy_symbols(&self.outputs),
            sample_kinds: copy_symbols(&self.sample_kinds),
        }
    }
}

/// Placement locality advertised by a device site.
#[derive(Clone, Copy, Debug, PartialEq, Eq, Structural)]
pub enum DeviceSiteLocality {
    /// Device adapter runs at the device or edge boundary.
    EdgeLocal,
    /// Site runs on the host but not at the device edge.
    HostLocal,
    /// Site crosses a remote transport boundary.
    Remote,
}

/// Export-record-style descriptor for a device route site.
#[derive(Clone, Debug, PartialEq, Eq)]
pub struct DeviceSite {
    /// Stable site symbol exported by the route provider.
    pub symbol: Symbol,
    /// Device profile carried by this site export.
    pub profile: DeviceProfile,
    /// Surface codec for device samples and commands.
    pub surface_codec_id: Symbol,
    /// Locality used by placement validation.
    pub locality: DeviceSiteLocality,
}

impl DeviceSite {
    /// Builds a device site descriptor.
    pub fn new(
        symbol: Symbol,
        profile: DeviceProfile,
        surface_codec_id: Symbol,
        locality: DeviceSiteLocality,
    ) -> (r: Self)
        ensures
            r.symbol == symbol,
            r.profile == profile,
            r.surface_codec_id == surface_codec_id,
            r.locality == locality,
    {
        DeviceSite { symbol, profile, surface_codec_id, locality }
    }

    /// Builds a device or edge-local site descriptor.
    pub fn edge_local(symbol: Symbol, profile: DeviceProfile, surface_codec_id: Symbol) -> (r: Self)
        ensures
            r == (DeviceSite { symbol, profile, surface_codec_id, locality: DeviceSiteLocality::EdgeLocal }),
    {
        Self::new(symbol, profile, surface_codec_id, DeviceSiteLocality::EdgeLocal)
    }

    /// Builds a host-local site descriptor.
    pub fn host_local(symbol: Symbol, profile: DeviceProfile, surface_codec_id: Symbol) -> (r: Self)
        ensures
            r == (DeviceSite { symbol, profile, surface_codec_id, locality: DeviceSiteLocality::HostLocal }),
    {
        Self::new(symbol, profile, surface_codec_id, DeviceSiteLocality::HostLocal)
    }

    /// Builds a remote site descriptor.
    pub fn remote(symbol: Symbol, profile: DeviceProfile, surface_codec_id: Symbol) -> (r: Self)
        ensures
            r == (DeviceSite { symbol, profile, surface_codec_id, locality: DeviceSiteLocality::Remote }),
    {
        Self::new(symbol, profile, surface_codec_id, DeviceSiteLocality::Remote)
    }

    /// Returns whether this site is local enough for a latency-critical
    /// adapter.
    pub fn is_edge_local(&self) -> (r: bool)
        ensures
            r == (self.locality == DeviceSiteLocality::EdgeLocal),
    {
        self.locality == DeviceSiteLocality::EdgeLocal
    }
}

/// Placement plan for a device surface encoder and adapter pair.
#[derive(Clone, Debug, PartialEq, Eq)]
pub struct DevicePlacement {
    /// Site that encodes samples and commands for the selected surface codec.
    pub encoder: DeviceSite,
    /// Latency-critical adapter site placed at the device edge.
    pub adapter: DeviceSite,
}

/// Device placement validation error.
#[derive(Clone, Copy, Debug, PartialEq, Eq, Structural)]
pub enum DevicePlacementError {
    /// The latency-critical adapter is not device or edge local.
    AdapterMustBeEdgeLocal,
}

impl DevicePlacementError {
    /// The error's message.
    pub fn to_string(&self) -> (r: String)
        ensures
            r@ == "device adapter must be edge-local"@,
    {
        owned("device adapter must be edge-local")
    }
}

impl DevicePlacement {
    /// Builds a device placement plan from an encoder and adapter site.
    pub fn new(encoder: DeviceSite, adapter: DeviceSite) -> (r: Self)
        ensures
            r.encoder == encoder,
            r.adapter == adapter,
    {
        DevicePlacement { encoder, adapter }
    }

    /// Validates placement invariants for live device operation: the
    /// adapter must be edge-local.
    pub fn validate(&self) -> (r: Result<(), DevicePlacementError>)
        ensures
            r is Ok <==> self.adapter.locality == DeviceSiteLocality::EdgeLocal,
            r matches Err(e) ==> e == DevicePlacementError::AdapterMustBeEdgeLocal,
    {
        if self.adapter.is_edge_local() {
            Ok(())
        } else {
            Err(DevicePlacementError::AdapterMustBeEdgeLocal)
        }
    }
}

/// Hardware-free session used by headless device composition.
#[derive(Clone, Debug, PartialEq, Eq)]
pub struct StubSession {
    profile: DeviceProfile,
    started: bool,
}

impl StubSession {
    /// The profile this session advertises.
    pub closed spec fn profile_view(&self) -> ProfileView {
        self.profile.view()
    }

    /// Whether the session runs.
    pub closed spec fn started_view(&self) -> bool {
        self.started
    }

    /// Builds an unstarted stub session for the supplied profile.
    pub fn new(profile: DeviceProfile) -> (r: Self)
        ensures
            r.profile_view() == profile.view(),
            !r.started_view(),
    {
        StubSession { profile, started: false }
    }

    /// Returns whether this stub session has been started.
    pub fn is_started(&self) -> (r: bool)
        ensures
            r == self.started_view(),
    {
        self.started
    }

    /// Returns the profile for this session.
    pub fn profile(&self) -> (r: &DeviceProfile)
        ensures
            r.view() == self.profile_view(),
    {
        &self.profile
    }

    /// Starts the session.
    pub fn start(&mut self)
        ensures
            final(self).started_view(),
            final(self).profile_view() == old(self).profile_view(),
    {
        self.started = true;
    }

    /// Stops the session.
    pub fn stop(&mut self)
        ensures
            !final(self).started_view(),
            final(self).profile_view() == old(self).profile_view(),
    {
        self.started = false;
    }
}

/// Hardware-free provider used when no concrete device provider is
/// installed.
#[derive(Clone, Debug, PartialEq, Eq)]
pub struct StubProvider {
    profile: DeviceProfile,
}

impl StubProvider {
    /// The profile this stub advertises.
    pub closed spec fn profile_view(&self) -> ProfileView {
        self.profile.view()
    }

    /// Builds a stub provider for the supplied profile.
    pub fn new(profile: DeviceProfile) -> (r: Self)
        ensures
            r.profile_view() == profile.view(),
    {
        StubProvider { profile }
    }

    /// Returns the profile this stub advertises for browse and placement.
    pub fn profile(&self) -> (r: &DeviceProfile)
        ensures
            r.view() == self.profile_view(),
    {
        &self.profile
    }

    /// Builds an unopened stub session for provider-surface validation.
    pub fn session(&self) -> (r: StubSession)
        ensures
            r.profile_view() == self.profile_view(),
            !r.started_view(),
    {
        StubSession::new(self.profile.copy())
    }
}

/// Route selected by a product verb before device host composition.
#[derive(Clone, Debug, PartialEq, Eq)]
pub struct RouteArg {
    symbol: Symbol,
}

impl RouteArg {
    /// The route symbol.
    pub closed spec fn symbol_view(&self) -> SymbolView {
        self.symbol.view()
    }

    /// Builds a route from a stable route symbol.
    pub fn new(symbol: Symbol) -> (r: Self)
        ensures
            r.symbol_view() == symbol.view(),
    {
        RouteArg { symbol }
    }

    /// The hardware-free route used by headless device composition.
    pub fn headless() -> (r: Self)
        ensures
            r.symbol_view() == qualified_symbol("device/route"@, "headless"@),
    {
        RouteArg::new(sym("device/route", "headless"))
    }

    /// Returns the stable route symbol.
    pub fn symbol(&self) -> (r: &Symbol)
        ensures
            r.view() == self.symbol_view(),
    {
        &self.symbol
    }

    /// A copy of this route.
    pub fn copy(&self) -> (r: Self)
        ensures
            r.symbol_view() == self.symbol_view(),
    {
        RouteArg { symbol: self.symbol.copy() }
    }
}

/// Policy applied when a device sample or rendered frame becomes stale.
#[derive(Clone, Copy, Debug, PartialEq, Eq, Structural)]
pub enum DeviceHostStalePolicy {
    /// Keep the last accepted sample or rendered frame visible.
    HoldLast,
    /// Predict briefly from the last accepted sample, then clamp to the last
    /// frame.
    PredictClamp,
    /// Replace stale output with a blank sample or surface frame.
    Blank,
    /// Refuse stale output until the provider yields a fresh sample.
    Refuse,
}

/// Consent policy carried by device verbs into host composition.
#[derive(Clone, Debug, PartialEq, Eq)]
pub enum DeviceConsentPolicy {
    /// The route is explicitly headless and requires no interactive receipt.
    Headless,
    /// A human-visible receipt must be associated with the route before use.
    RequireReceipt {
        /// Stable subject that owns the receipt.
        subject: Symbol,
    },
}

/// Coarse rate class for pacing the device adapter loop.
#[derive(Clone, Copy, Debug, PartialEq, Eq, Structural)]
pub enum DeviceRateClass {
    /// Low-rate sensor stream with no local controls or surface output.
    Sparse,
    /// Interactive device with local controls but no surface output.
    Interactive,
    /// Surface-capable device with local output that benefits from tight
    /// pacing.
    Surface,
}

/// Milliseconds between adapter ticks of a rate class.
pub open spec fn rate_interval(c: DeviceRateClass) -> u64 {
    match c {
        DeviceRateClass::Sparse => 1000,
        DeviceRateClass::Interactive => 100,
        DeviceRateClass::Surface => 50,
    }
}

impl DeviceRateClass {
    /// Milliseconds between adapter ticks.
    pub fn interval_ms(self) -> (r: u64)
        ensures
            r == rate_interval(self),
    {
        match self {
            DeviceRateClass::Sparse => 1000,
            DeviceRateClass::Interactive => 100,
            DeviceRateClass::Surface => 50,
        }
    }
}

/// The rate class of a profile: surface output first, then local controls.
pub open spec fn rate_class_of(p: ProfileView) -> DeviceRateClass {
    if p.outputs.len() > 0 {
        DeviceRateClass::Surface
    } else if p.inputs.len() > 0 {
        DeviceRateClass::Interactive
    } else {
        DeviceRateClass::Sparse
    }
}

/// Derives the adapter-loop rate class from stream-facing device metadata.
pub fn derive_device_rate_class(profile: &DeviceProfile) -> (r: DeviceRateClass)
    ensures
        r == rate_class_of(profile.view()),
{
    if profile.outputs.len() > 0 {
        DeviceRateClass::Surface
    } else if profile.inputs.len() > 0 {
        DeviceRateClass::Interactive
    } else {
        DeviceRateClass::Sparse
    }
}

/// Input required to compose a device host session.
#[derive(Clone, Debug, PartialEq, Eq)]
pub struct DeviceHostSpec {
    /// Stream-facing device profile selected by the product verb.
    pub profile: DeviceProfile,
    /// Route selected by the product verb.
    pub route: RouteArg,
    /// Placement plan for the surface encoder and edge-local adapter.
    pub placement: DevicePlacement,
    /// Stale-sample policy used by the adapter loop.
    pub stale: DeviceHostStalePolicy,
    /// Consent policy required before the device route is used.
    pub consent: DeviceConsentPolicy,
}

impl DeviceHostSpec {
    /// Builds a device host composition request.
    pub fn new(
        profile: DeviceProfile,
        route: RouteArg,
        placement: DevicePlacement,
        stale: DeviceHostStalePolicy,
        consent: DeviceConsentPolicy,
    ) -> (r: Self)
        ensures
            r == (DeviceHostSpec { profile, route, placement, stale, consent }),
    {
        DeviceHostSpec { profile, route, placement, stale, consent }
    }
}

/// Provider source selected during device host composition.
#[derive(Clone, Copy, Debug, PartialEq, Eq, Structural)]
pub enum DeviceProviderKind {
    /// A concrete provider instance supplied the session.
    Instance,
    /// No concrete provider was supplied, so the helper composed a stub
    /// session.
    Stub,
}

/// One scheduled adapter-loop tick.
#[derive(Clone, Copy, Debug, PartialEq, Eq)]
pub struct AdapterTick {
    sequence: u64,
    interval_ms: u64,
}

impl AdapterTick {
    /// The tick's sequence number.
    pub closed spec fn sequence_view(&self) -> u64 {
        self.sequence
    }

    /// The tick's delay.
    pub closed spec fn interval_view(&self) -> u64 {
        self.interval_ms
    }

    /// Returns the monotonic tick sequence.
    pub fn sequence(&self) -> (r: u64)
        ensures
            r == self.sequence_view(),
    {
        self.sequence
    }

    /// Returns the delay before this tick in milliseconds.
    pub fn interval_ms(&self) -> (r: u64)
        ensures
            r == self.interval_view(),
    {
        self.interval_ms
    }
}

/// Pacing plan for a composed device adapter loop.
#[derive(Clone, Debug, PartialEq, Eq)]
pub struct DeviceAdapterLoopPlan {
    rate_class: DeviceRateClass,
    stale: DeviceHostStalePolicy,
    route: RouteArg,
    device: Symbol,
    sequence: u64,
}

impl DeviceAdapterLoopPlan {
    /// The rate class of the loop.
    pub closed spec fn rate_view(&self) -> DeviceRateClass {
        self.rate_class
    }

    /// The stale policy of the loop.
    pub closed spec fn stale_view(&self) -> DeviceHostStalePolicy {
        self.stale
    }

    /// The route paced by the loop.
    pub closed spec fn route_view(&self) -> SymbolView {
        self.route.symbol_view()
    }

    /// The paced device.
    pub closed spec fn device_view(&self) -> SymbolView {
        self.device.view()
    }

    /// Ticks taken so far.
    pub closed spec fn sequence_view(&self) -> u64 {
        self.sequence
    }

    /// Builds a pacing plan from the selected profile, route, and stale
    /// policy; no tick has been taken.
    pub fn for_profile(profile: &DeviceProfile, route: RouteArg, stale: DeviceHostStalePolicy) -> (r:
        Self)
        ensures
            r.rate_view() == rate_class_of(profile.view()),
            r.stale_view() == stale,
            r.route_view() == route.symbol_view(),
            r.device_view() == profile.device.view(),
            r.sequence_view() == 0,
    {
        DeviceAdapterLoopPlan {
            rate_class: derive_device_rate_class(profile),
            stale,
            route,
            device: profile.device.copy(),
            sequence: 0,
        }
    }

    /// Returns the rate class used by this adapter loop.
    pub fn rate_class(&self) -> (r: DeviceRateClass)
        ensures
            r == self.rate_view(),
    {
        self.rate_class
    }

    /// Returns the stale-sample policy used by this adapter loop.
    pub fn stale_policy(&self) -> (r: DeviceHostStalePolicy)
        ensures
            r == self.stale_view(),
    {
        self.stale
    }

    /// Returns the route paced by this adapter loop.
    pub fn route(&self) -> (r: &RouteArg)
        ensures
            r.symbol_view() == self.route_view(),
    {
        &self.route
    }

    /// Returns the selected device symbol.
    pub fn device(&self) -> (r: &Symbol)
        ensures
            r.view() == self.device_view(),
    {
        &self.device
    }

    /// Returns the current tick sequence without advancing it.
    pub fn sequence(&self) -> (r: u64)
        ensures
            r == self.sequence_view(),
    {
        self.sequence
    }

    /// Returns the delay between adapter ticks in milliseconds.
    pub fn interval_ms(&self) -> (r: u64)
        ensures
            r == rate_interval(self.rate_view()),
    {
        self.rate_class.interval_ms()
    }

    /// Advances the adapter clock by one paced tick.
    pub fn next_tick(&mut self) -> (t: AdapterTick)
        requires
            old(self).sequence_view() < u64::MAX,
        ensures
            final(self).sequence_view() == old(self).sequence_view() + 1,
            final(self).rate_view() == old(self).rate_view(),
            final(self).stale_view() == old(self).stale_view(),
            final(self).route_view() == old(self).route_view(),
            final(self).device_view() == old(self).device_view(),
            t.sequence_view() == final(self).sequence_view(),
            t.interval_view() == rate_interval(old(self).rate_view()),
    {
        self.sequence = self.sequence + 1;
        AdapterTick { sequence: self.sequence, interval_ms: self.interval_ms() }
    }
}

/// Surface-hub join plan produced by device host composition.
#[derive(Clone, Debug, PartialEq, Eq)]
pub struct DeviceSurfaceHubJoin {
    route: RouteArg,
    device: Symbol,
    adapter_site: Symbol,
}

impl DeviceSurfaceHubJoin {
    /// The joined route.
    pub closed spec fn route_view(&self) -> SymbolView {
        self.route.symbol_view()
    }

    /// The joined device.
    pub closed spec fn device_view(&self) -> SymbolView {
        self.device.view()
    }

    /// The adapter site joined to the hub.
    pub closed spec fn adapter_site_view(&self) -> SymbolView {
        self.adapter_site.view()
    }

    /// Builds a surface-hub join plan.
    pub fn new(route: RouteArg, device: Symbol, adapter_site: Symbol) -> (r: Self)
        ensures
            r.route_view() == route.symbol_view(),
            r.device_view() == device.view(),
            r.adapter_site_view() == adapter_site.view(),
    {
        DeviceSurfaceHubJoin { route, device, adapter_site }
    }

    /// Returns the route associated with the hub join.
    pub fn route(&self) -> (r: &RouteArg)
        ensures
            r.symbol_view() == self.route_view(),
    {
        &self.route
    }

    /// Returns the device associated with the hub join.
    pub fn device(&self) -> (r: &Symbol)
        ensures
            r.view() == self.device_view(),
    {
        &self.device
    }

    /// Returns the edge-local adapter site joined to the hub.
    pub fn adapter_site(&self) -> (r: &Symbol)
        ensures
            r.view() == self.adapter_site_view(),
    {
        &self.adapter_site
    }
}

/// What joining a device session yields once its provider opened a session:
/// the adapter loop and hub join of a live session.
pub struct DeviceJoinPlan {
    /// Pacing plan of the adapter loop.
    pub adapter_loop: DeviceAdapterLoopPlan,
    /// Surface-hub join plan.
    pub hub_join: DeviceSurfaceHubJoin,
}

/// Message when the opened session's profile is not the requested one.
pub open spec fn profile_mismatch_msg(session: ProfileView, requested: ProfileView) -> Seq<char> {
    "device provider profile "@ + qualified_text(session.device)
        + " did not match requested profile "@ + qualified_text(requested.device)
}

/// Decides whether an opened device session may join: the placement must
/// put the adapter at the edge, and the session must advertise the
/// requested profile. On success the loop is paced by the profile's rate
/// class from sequence 0 and the hub joins the adapter site.
pub fn plan_device_join(spec: &DeviceHostSpec, session_profile: &DeviceProfile) -> (r: Result<
    DeviceJoinPlan,
    String,
>)
    ensures
        spec.placement.adapter.locality != DeviceSiteLocality::EdgeLocal ==> (r matches Err(m)
            && m@ == "device adapter must be edge-local"@),
        spec.placement.adapter.locality == DeviceSiteLocality::EdgeLocal && session_profile.view()
            != spec.profile.view() ==> (r matches Err(m) && m@ == profile_mismatch_msg(
            session_profile.view(),
            spec.profile.view(),
        )),
        spec.placement.adapter.locality == DeviceSiteLocality::EdgeLocal && session_profile.view()
            == spec.profile.view() ==> (r matches Ok(p) && p.adapter_loop.rate_view() == rate_class_of(
            spec.profile.view(),
        ) && p.adapter_loop.stale_view() == spec.stale && p.adapter_loop.route_view()
            == spec.route.symbol_view() && p.adapter_loop.device_view() == spec.profile.device.view()
            && p.adapter_loop.sequence_view() == 0 && p.hub_join.route_view()
            == spec.route.symbol_view() && p.hub_join.device_view() == spec.profile.device.view()
            && p.hub_join.adapter_site_view() == spec.placement.adapter.symbol.view()),
{
    match spec.placement.validate() {
        Err(e) => {
            return Err(e.to_string());
        },
        Ok(()) => {},
    }
    if !session_profile.same(&spec.profile) {
        let mut m = concat2("device provider profile ", session_profile.device.as_qualified_str().as_str());
        m.append(" did not match requested profile ");
        m.append(spec.profile.device.as_qualified_str().as_str());
        return Err(m);
    }
    let adapter_loop = DeviceAdapterLoopPlan::for_profile(&spec.profile, spec.route.copy(), spec.stale);
    let hub_join = DeviceSurfaceHubJoin::new(
        spec.route.copy(),
        spec.profile.device.copy(),
        spec.placement.adapter.symbol.copy(),
    );
    Ok(DeviceJoinPlan { adapter_loop, hub_join })
}

/// Composed device host session returned to per-device verbs.
pub struct DeviceEdgeSession {
    spec: DeviceHostSpec,
    provider_kind: DeviceProviderKind,
    session: StubSession,
    adapter_loop: DeviceAdapterLoopPlan,
    hub_join: DeviceSurfaceHubJoin,
    live: bool,
}

impl DeviceEdgeSession {
    /// The composition request.
    pub closed spec fn spec_view(&self) -> DeviceHostSpec {
        self.spec
    }

    /// Where the session came from.
    pub closed spec fn provider_view(&self) -> DeviceProviderKind {
        self.provider_kind
    }

    /// The joined device session.
    pub closed spec fn session_view(&self) -> StubSession {
        self.session
    }

    /// The adapter loop.
    pub closed spec fn loop_view(&self) -> DeviceAdapterLoopPlan {
        self.adapter_loop
    }

    /// The hub join.
    pub closed spec fn hub_view(&self) -> DeviceSurfaceHubJoin {
        self.hub_join
    }

    /// Whether composition joined the session.
    pub closed spec fn live_view(&self) -> bool {
        self.live
    }

    /// Returns whether host composition joined a device session.
    pub fn is_live(&self) -> (r: bool)
        ensures
            r == self.live_view(),
    {
        self.live
    }

    /// Returns the provider source used for this session.
    pub fn provider_kind(&self) -> (r: DeviceProviderKind)
        ensures
            r == self.provider_view(),
    {
        self.provider_kind
    }

    /// Returns the selected stream-facing profile.
    pub fn profile(&self) -> (r: &DeviceProfile)
        ensures
            r == self.spec_view().profile,
    {
        &self.spec.profile
    }

    /// Returns the selected route.
    pub fn route(&self) -> (r: &RouteArg)
        ensures
            r == self.spec_view().route,
    {
        &self.spec.route
    }

    /// Returns the validated device placement.
    pub fn placement(&self) -> (r: &DevicePlacement)
        ensures
            r == self.spec_view().placement,
    {
        &self.spec.placement
    }

    /// Returns the selected stale-sample policy.
    pub fn stale_policy(&self) -> (r: DeviceHostStalePolicy)
        ensures
            r == self.spec_view().stale,
    {
        self.spec.stale
    }

    /// Returns the selected consent policy.
    pub fn consent_policy(&self) -> (r: &DeviceConsentPolicy)
        ensures
            r == self.spec_view().consent,
    {
        &self.spec.consent
    }

    /// Returns the adapter-loop pacing plan.
    pub fn adapter_loop(&self) -> (r: &DeviceAdapterLoopPlan)
        ensures
            r == self.loop_view(),
    {
        &self.adapter_loop
    }

    /// Takes the next adapter-loop tick.
    pub fn next_tick(&mut self) -> (t: AdapterTick)
        requires
            old(self).loop_view().sequence_view() < u64::MAX,
        ensures
            final(self).loop_view().sequence_view() == old(self).loop_view().sequence_view() + 1,
            final(self).loop_view().rate_view() == old(self).loop_view().rate_view(),
            t.sequence_view() == final(self).loop_view().sequence_view(),
            t.interval_view() == rate_interval(old(self).loop_view().rate_view()),
            final(self).spec_view() == old(self).spec_view(),
            final(self).live_view() == old(self).live_view(),
    {
        self.adapter_loop.next_tick()
    }

    /// Returns the surface-hub join plan.
    pub fn hub_join(&self) -> (r: &DeviceSurfaceHubJoin)
        ensures
            r == self.hub_view(),
    {
        &self.hub_join
    }

    /// Returns the composed device session.
    pub fn device_session(&self) -> (r: &StubSession)
        ensures
            r == self.session_view(),
    {
        &self.session
    }
}

/// Composes a device host session with a hardware-free stub provider: the
/// placement is validated, the stub session is opened on the requested
/// profile and started, and the adapter loop and hub join are planned.
pub fn compose_device_host(spec: DeviceHostSpec) -> (r: Result<DeviceEdgeSession, String>)
    ensures
        spec.placement.adapter.locality != DeviceSiteLocality::EdgeLocal ==> (r matches Err(m)
            && m@ == "device adapter must be edge-local"@),
        spec.placement.adapter.locality == DeviceSiteLocality::EdgeLocal ==> (r matches Ok(s)
            && s.live_view() && s.provider_view() == DeviceProviderKind::Stub && s.spec_view() == spec
            && s.session_view().started_view() && s.session_view().profile_view() == spec.profile.view()
            && s.loop_view().rate_view() == rate_class_of(spec.profile.view())
            && s.loop_view().sequence_view() == 0 && s.loop_view().stale_view() == spec.stale
            && s.loop_view().route_view() == spec.route.symbol_view()
            && s.hub_view().route_view() == spec.route.symbol_view()
            && s.hub_view().adapter_site_view() == spec.placement.adapter.symbol.view()
            && s.hub_view().device_view() == spec.profile.device.view()),
{
    let provider = StubProvider::new(spec.profile.copy());
    let mut session = provider.session();
    let plan = plan_device_join(&spec, session.profile())?;
    session.start();
    Ok(DeviceEdgeSession {
        spec,
        provider_kind: DeviceProviderKind::Stub,
        session,
        adapter_loop: plan.adapter_loop,
        hub_join: plan.hub_join,
        live: true,
    })
}

/// A device host composed for the modeled edge profile paces its adapter
/// loop as a surface: every 50 milliseconds.
pub proof fn law_modeled_edge_paces_as_surface()
    ensures
        rate_class_of(DeviceProfile::modeled_edge_view()) == DeviceRateClass::Surface,
        rate_interval(rate_class_of(DeviceProfile::modeled_edge_view())) == 50,
{
}

} // verus!
