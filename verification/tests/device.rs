use std::collections::BTreeSet;

use sim_run_core::device_host::{plan_device_join, DeviceJoinPlan};
use sim_run_core::device_options::DeviceRouteOptionModel;
use sim_run_core::{
    compose_device_host, derive_device_rate_class, DeviceConsentPolicy, DeviceHostSpec,
    DeviceHostStalePolicy, DevicePlacement, DevicePlacementError, DeviceProfile,
    DeviceProviderKind, DeviceRateClass, DeviceSite, RouteArg, Symbol,
};

fn sym(ns: &str, name: &str) -> Symbol {
    Symbol::qualified(ns.to_owned(), name.to_owned())
}

fn reference_placement(profile: &DeviceProfile) -> DevicePlacement {
    let codec = sym("codec", "surface-device");
    DevicePlacement::new(
        DeviceSite::remote(sym("device/site", "host-encoder"), profile.clone(), codec.clone()),
        DeviceSite::edge_local(sym("device/site", "edge-adapter"), profile.clone(), codec),
    )
}

#[test]
fn compose_reference_device_headless() {
    let profile = DeviceProfile::modeled_edge();
    let placement = reference_placement(&profile);
    let spec = DeviceHostSpec::new(
        profile.clone(),
        RouteArg::headless(),
        placement.clone(),
        DeviceHostStalePolicy::HoldLast,
        DeviceConsentPolicy::Headless,
    );

    let mut session = compose_device_host(spec).expect("compose device host");

    assert!(session.is_live());
    assert_eq!(session.provider_kind(), DeviceProviderKind::Stub);
    assert_eq!(session.profile(), &profile);
    assert_eq!(session.device_session().profile(), &profile);
    assert_eq!(session.route(), &RouteArg::headless());
    assert_eq!(session.placement(), &placement);
    assert_eq!(session.adapter_loop().rate_class(), DeviceRateClass::Surface);
    assert_eq!(session.adapter_loop().interval_ms(), 50);
    assert_eq!(session.adapter_loop().sequence(), 0);
    assert_eq!(session.hub_join().route(), &RouteArg::headless());
    assert_eq!(session.hub_join().adapter_site(), &placement.adapter.symbol);

    let tick = session.next_tick();
    assert_eq!(tick.sequence(), 1);
    assert_eq!(tick.interval_ms(), 50);
    assert_eq!(session.adapter_loop().sequence(), 1);
    assert!(session.device_session().is_started());
}

#[test]
fn remote_adapter_placement_is_refused() {
    let profile = DeviceProfile::modeled_edge();
    let codec = sym("codec", "surface-device");
    let placement = DevicePlacement::new(
        DeviceSite::edge_local(sym("device/site", "e"), profile.clone(), codec.clone()),
        DeviceSite::host_local(sym("device/site", "a"), profile.clone(), codec),
    );
    assert_eq!(placement.validate(), Err(DevicePlacementError::AdapterMustBeEdgeLocal));
    let spec = DeviceHostSpec::new(
        profile,
        RouteArg::headless(),
        placement,
        DeviceHostStalePolicy::Blank,
        DeviceConsentPolicy::Headless,
    );
    assert_eq!(
        compose_device_host(spec).err().unwrap(),
        "device adapter must be edge-local"
    );
}

#[test]
fn mismatched_session_profile_is_refused() {
    let profile = DeviceProfile::modeled_edge();
    let spec = DeviceHostSpec::new(
        profile.clone(),
        RouteArg::headless(),
        reference_placement(&profile),
        DeviceHostStalePolicy::Refuse,
        DeviceConsentPolicy::RequireReceipt { subject: sym("user", "me") },
    );
    let other = DeviceProfile::new(sym("device", "other"), vec![], vec![], vec![], vec![]);
    let result: Result<DeviceJoinPlan, String> = plan_device_join(&spec, &other);
    assert_eq!(
        result.err().unwrap(),
        "device provider profile device/other did not match requested profile device/modeled-edge"
    );
}

#[test]
fn rate_class_follows_outputs_then_inputs() {
    let sparse = DeviceProfile::new(sym("d", "s"), vec![sym("s", "x")], vec![], vec![], vec![]);
    let inter = DeviceProfile::new(sym("d", "i"), vec![], vec![sym("i", "b")], vec![], vec![]);
    assert_eq!(derive_device_rate_class(&sparse), DeviceRateClass::Sparse);
    assert_eq!(derive_device_rate_class(&inter), DeviceRateClass::Interactive);
    assert_eq!(derive_device_rate_class(&DeviceProfile::modeled_edge()), DeviceRateClass::Surface);
    assert_eq!(DeviceRateClass::Sparse.interval_ms(), 1000);
    assert_eq!(DeviceRateClass::Interactive.interval_ms(), 100);
    assert!(DeviceProfile::modeled_edge().supports_sample_kind(&sym("device/sample", "caps")));
    assert!(!DeviceProfile::modeled_edge().supports_sample_kind(&sym("device/sample", "video")));
}

#[test]
fn glasses_route_option_model_accepts_every_supported_route() {
    let model = DeviceRouteOptionModel::glasses();
    assert_eq!(
        model.options(),
        [
            "direct-linux",
            "android-usb",
            "neckband-local",
            "neckband-relay",
            "mobile-dock-display",
            "ble-direct",
            "web-bluetooth",
            "phone-relay",
            "controller-hid",
        ]
    );

    let unique = model.options().iter().copied().collect::<BTreeSet<_>>();
    assert_eq!(unique.len(), model.options().len());

    for value in model.options() {
        let route = model.parse(value).expect("supported glasses route");
        assert_eq!(route.symbol().namespace.as_deref(), Some("device/route"));
        assert_eq!(route.symbol().name.as_str(), value);
    }
}

#[test]
fn glasses_route_option_model_rejects_unknown_route() {
    let model = DeviceRouteOptionModel::glasses();
    let error = model.parse("vendor-cloud").expect_err("unknown route");

    assert_eq!(error.value(), "vendor-cloud");
    assert_eq!(error.expected(), model.options());
    assert!(error.to_string().contains("direct-linux"));
    assert!(error.to_string().contains("controller-hid"));
}

#[test]
fn route_error_lists_every_option() {
    let error = DeviceRouteOptionModel::glasses().parse("x").unwrap_err();
    assert_eq!(
        error.to_string(),
        "unsupported device route 'x'; expected one of: direct-linux, android-usb, \
         neckband-local, neckband-relay, mobile-dock-display, ble-direct, web-bluetooth, \
         phone-relay, controller-hid"
    );
}
