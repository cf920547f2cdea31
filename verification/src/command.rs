//! Help and version output of the bootloader.
use vstd::prelude::*;
use vstd::string::*;

use crate::text::concat3;

verus! {

/// Version of this package, reported by `sim --version`.
pub const PACKAGE_VERSION: &'static str = "0.1.0";

/// Bootloader help text.
pub const HELP: &'static str = "Usage: sim [OPTIONS] [PAYLOAD...]

Options:
  --help              Print this help text.
  --version           Print the binary version.
  --codec NAME        Select the boot codec name.
  --load SRC          Add a library source to load.
  --native-audio-provider SRC
                      Try a native audio provider source and degrade if absent.
  --config-home PATH  Read home config from PATH.
  --config-work PATH  Read working config from PATH.
  --config-file PATH  Read one shared config Dir file after root files.
  --config-site SYMBOL
                      Read a config Dir from a loaded site export.
  --no-config-files   Skip filesystem config discovery.
  --list              Request a loaded-lib list.
  --inspect SYMBOL    Request inspection of a loaded lib or export.
  config status       Report loaded libs, config sources, probes, and diagnostics.
  config effective LIB
                      Report the effective config table for LIB.
  config sources      Report config source provenance and diagnostics.
  --json              Render a config report command as stable JSON.
  --eval TEXT         Carry eval text for loaded-lib handoff.
  --script PATH       Carry a script path for loaded-lib handoff.
  --stdin TEXT        Carry stdin text for loaded-lib handoff.

Note: the bootloader bakes in no codec. By default it fetches nothing over
the network and boots only libraries provided via --load (an artifact source) or
already present in the local cache. A build with the registry feature can fetch from
an explicit git registry endpoint installed by the host. With no source it reports
`no codec '<name>' available`.
";

/// The `sim --version` line for a version.
pub open spec fn version_line_spec(version: Seq<char>) -> Seq<char> {
    "sim "@ + version + "\n"@
}

/// Returns the version line for this package.
pub fn version_line() -> (r: String)
    ensures
        r@ == version_line_spec(PACKAGE_VERSION@),
{
    version_line_for(PACKAGE_VERSION)
}

/// Returns the `sim --version` line for the binary-owned `version`.
pub fn version_line_for(version: &str) -> (r: String)
    ensures
        r@ == version_line_spec(version@),
{
    concat3("sim ", version, "\n")
}

} // verus!
