//! Verified core of the SIM command-line bootloader: argument parsing,
//! library source syntax, crates.io-style version resolution and offline
//! artifact listings, git registry index handling and endpoint policy, the
//! native manifest's expression form, config discovery and reports, device
//! host composition, loaded-lib handoff selection and introspection output.
pub mod error;
pub mod text;
pub mod version;
pub mod crates_io;
pub mod git_registry;
pub mod loopback;
pub mod symbol;
pub mod source;
pub mod config;
pub mod boot;
pub mod args;
pub mod command;
pub mod device_host;
pub mod device_options;
pub mod receipt;
pub mod report;
pub mod status_report;
pub mod platform_bundle;
pub mod reexport;
pub mod load_plan;
pub mod exit;
pub mod manifest;
pub mod listing;
pub mod introspect;
pub mod bootstrap;
pub mod native_loader;
pub mod config_discovery;
pub mod native_number;
pub mod native_macro;
pub mod loader_source;
pub mod wasm_loader;

pub use crate::args::{parse_args, CliCommand};
pub use crate::boot::{
    boot_codec_name, codec_lib_symbol, CliBoot, CliEnvelope, Payload, DEFAULT_CODEC_NAME,
};
pub use crate::command::{version_line, version_line_for};
pub use crate::config::{ConfigLoadOptions, ConfigRoots};
pub use crate::crates_io::{
    CachedVersion, CratesIoResolver, CratesIoSpec, RegistryArtifact, ResolveStep,
    ResolvedCratesIoSource, VersionReq,
};
pub use crate::device_host::{
    AdapterTick, DeviceAdapterLoopPlan, DeviceConsentPolicy, DeviceEdgeSession, DeviceHostSpec,
    DeviceHostStalePolicy, DevicePlacement, DevicePlacementError, DeviceProfile,
    DeviceProviderKind, DeviceRateClass, DeviceSite, DeviceSiteLocality, DeviceSurfaceHubJoin,
    RouteArg, StubProvider, StubSession, compose_device_host, derive_device_rate_class,
};
pub use crate::error::CliError;
pub use crate::git_registry::{GitRegistryResolver, GIT_REGISTRY_ENDPOINT_ENV};
pub use crate::platform_bundle::{boot_load_requests, BootLoadRequest};
pub use crate::receipt::{
    cli_main_entrypoint_symbol, select_cli_entrypoint, CliEntrypoint, LoadReceipt,
    LoadReceiptRole, CLI_MAIN_ENTRYPOINT,
};
pub use crate::source::LibSourceSpec;
pub use crate::status_report::SourceStatus;
pub use crate::symbol::Symbol;
