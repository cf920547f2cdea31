//! Parsed bootloader controls, the payload kept for loaded libraries, and
//! the envelope handed to them.
use vstd::prelude::*;
use vstd::string::*;

use crate::config::{opt_view, ConfigLoadOptions, ConfigView};
use crate::source::{LibSourceSpec, SourceView};
use crate::text::concat2;

verus! {

broadcast use vstd::string::group_string_axioms;

/// Codec name used when `--codec` is absent.
pub const DEFAULT_CODEC_NAME: &'static str = "lisp";

/// Parsed bootloader controls and payload data.
#[derive(Clone, Debug, PartialEq, Eq)]
pub struct CliBoot {
    /// Codec name selected with `--codec`, or `None` for the default.
    pub codec: Option<String>,
    /// Library sources to load, in `--load` order.
    pub loads: Vec<LibSourceSpec>,
    /// Optional native audio provider source requested by the operator.
    pub native_audio_provider: Option<Box<LibSourceSpec>>,
    /// Runtime configuration source options.
    pub config: ConfigLoadOptions,
    /// Whether `--list` requested a loaded-lib listing.
    pub list: bool,
    /// Symbol passed to `--inspect`, if any.
    pub inspect: Option<String>,
    /// Payload data preserved for the loaded-lib handoff.
    pub payload: Payload,
}

/// Payload preserved for loaded-lib behavior.
#[derive(Clone, Debug, PartialEq, Eq)]
pub struct Payload {
    /// Trailing positional arguments handed to the loaded entrypoint.
    pub args: Vec<String>,
    /// Eval text carried from `--eval`.
    pub eval: Option<String>,
    /// Script path carried from `--script`.
    pub script: Option<String>,
    /// Stdin text carried from `--stdin`.
    pub stdin: Option<String>,
}

/// Data envelope supplied to the selected loaded-lib entrypoint.
#[derive(Clone, Debug, PartialEq, Eq)]
pub struct CliEnvelope {
    /// Codec library symbol selected for the boot session.
    pub codec: String,
    /// First payload argument, exposed as the loaded-lib verb.
    pub verb: Option<String>,
    /// Full payload argument list.
    pub args: Vec<String>,
    /// Eval text carried from `--eval`.
    pub eval: Option<String>,
    /// Script path carried from `--script`.
    pub script: Option<String>,
    /// Stdin text carried from `--stdin`.
    pub stdin: Option<String>,
}

/// Mathematical form of a payload.
pub struct PayloadView {
    pub args: Seq<Seq<char>>,
    pub eval: Option<Seq<char>>,
    pub script: Option<Seq<char>>,
    pub stdin: Option<Seq<char>>,
}

/// Mathematical form of parsed boot controls.
pub struct BootView {
    pub codec: Option<Seq<char>>,
    pub loads: Seq<SourceView>,
    pub native_audio_provider: Option<SourceView>,
    pub config: ConfigView,
    pub list: bool,
    pub inspect: Option<Seq<char>>,
    pub payload: PayloadView,
}

/// Views of strings.
pub open spec fn string_views(v: Seq<String>) -> Seq<Seq<char>> {
    v.map_values(|s: String| s@)
}

/// Views of sources.
pub open spec fn source_views(v: Seq<LibSourceSpec>) -> Seq<SourceView> {
    v.map_values(|s: LibSourceSpec| s.view())
}

impl Payload {
    pub open spec fn view(&self) -> PayloadView {
        PayloadView {
            args: string_views(self.args@),
            eval: opt_view(self.eval),
            script: opt_view(self.script),
            stdin: opt_view(self.stdin),
        }
    }
}

impl CliBoot {
    pub open spec fn view(&self) -> BootView {
        BootView {
            codec: opt_view(self.codec),
            loads: source_views(self.loads@),
            native_audio_provider: match self.native_audio_provider {
                Some(s) => Some(s.view()),
                None => None,
            },
            config: self.config.view(),
            list: self.list,
            inspect: opt_view(self.inspect),
            payload: self.payload.view(),
        }
    }

    /// Builds the data envelope handed to loaded libraries.
    pub fn envelope(&self) -> (r: CliEnvelope)
        ensures
            r.codec@ == codec_symbol_text(boot_codec_spec(self.view())),
            r.verb == (if self.payload.args@.len() > 0 {
                Some(self.payload.args@[0])
            } else {
                None::<String>
            }),
            r.args@ == self.payload.args@,
            r.eval == self.payload.eval,
            r.script == self.payload.script,
            r.stdin == self.payload.stdin,
    {
        let codec = codec_lib_symbol(boot_codec_name(self));
        let verb = if self.payload.args.len() > 0 {
            Some(self.payload.args[0].clone())
        } else {
            None
        };
        let mut args: Vec<String> = Vec::new();
        let mut k: usize = 0;
        while k < self.payload.args.len()
            invariant
                k <= self.payload.args@.len(),
                args@ == self.payload.args@.take(k as int),
            decreases self.payload.args@.len() - k,
        {
            args.push(self.payload.args[k].clone());
            k = k + 1;
            assert(args@ =~= self.payload.args@.take(k as int));
        }
        assert(args@ =~= self.payload.args@);
        CliEnvelope {
            codec,
            verb,
            args,
            eval: self.payload.eval.clone(),
            script: self.payload.script.clone(),
            stdin: self.payload.stdin.clone(),
        }
    }
}

/// The codec name a boot selects.
pub open spec fn boot_codec_spec(boot: BootView) -> Seq<char> {
    match boot.codec {
        Some(c) => c,
        None => DEFAULT_CODEC_NAME@,
    }
}

/// The library symbol of a codec name.
pub open spec fn codec_symbol_text(name: Seq<char>) -> Seq<char> {
    "codec/"@ + name
}

/// The codec name a boot selects: `--codec`, else the default.
pub fn boot_codec_name(boot: &CliBoot) -> (r: &str)
    ensures
        r@ == boot_codec_spec(boot.view()),
{
    match &boot.codec {
        Some(c) => c.as_str(),
        None => DEFAULT_CODEC_NAME,
    }
}

/// The library symbol of a codec name: `codec/NAME`.
pub fn codec_lib_symbol(name: &str) -> (r: String)
    ensures
        r@ == codec_symbol_text(name@),
{
    concat2("codec/", name)
}

} // verus!
