//! Booting from a host-supplied bootstrap envelope: no argument, directory,
//! environment, config-file or registry discovery of its own.
use vstd::prelude::*;
use vstd::string::*;

use crate::boot::{string_views, BootView, CliBoot, Payload, PayloadView};
use crate::config::{opt_view, ConfigLoadOptions, ConfigRoots, ConfigView};
use crate::error::CliError;

verus! {

broadcast use vstd::string::group_string_axioms;

/// What the bootloader reads of a supplied bootstrap envelope.
#[derive(Clone, Debug, PartialEq, Eq)]
pub struct SuppliedEnvelope {
    /// Arguments, the program name first.
    pub argv: Vec<String>,
    /// Standard input bytes; empty when there is none.
    pub stdin: Vec<u8>,
    /// Home config root the host supplied.
    pub config_home: Option<String>,
    /// Working config root the host supplied.
    pub config_work: String,
}

/// The text that bytes decode to as UTF-8, or `None` when they are not
/// UTF-8.
pub uninterp spec fn utf8_decoded(bytes: Seq<u8>) -> Option<Seq<char>>;

/// Decodes bytes as UTF-8 with `String::from_utf8`: the text, or `None`
/// when the bytes are not UTF-8.
#[verifier::external_body]
fn decode_utf8(bytes: Vec<u8>) -> (r: Option<String>)
    ensures
        opt_view(r) == utf8_decoded(bytes@),
{
    String::from_utf8(bytes).ok()
}

/// The boot of a supplied envelope: the arguments after the program name
/// as payload, the supplied standard input, the supplied config roots with
/// file discovery off, and nothing else requested.
pub open spec fn supplied_boot_view(
    argv: Seq<Seq<char>>,
    stdin: Option<Seq<char>>,
    home: Option<Seq<char>>,
    work: Seq<char>,
) -> BootView {
    BootView {
        codec: None,
        loads: Seq::empty(),
        native_audio_provider: None,
        config: ConfigView {
            home,
            work,
            read_files: false,
            single_file: None,
            site_sources: Seq::empty(),
        },
        list: false,
        inspect: None,
        payload: PayloadView {
            args: if argv.len() == 0 {
                argv
            } else {
                argv.drop_first()
            },
            eval: None,
            script: None,
            stdin,
        },
    }
}

/// The boot of a supplied envelope whose standard input is already text.
pub fn supplied_boot(
    argv: Vec<String>,
    stdin: Option<String>,
    config_home: Option<String>,
    config_work: String,
) -> (r: CliBoot)
    ensures
        r.view() == supplied_boot_view(
            string_views(argv@),
            opt_view(stdin),
            opt_view(config_home),
            config_work@,
        ),
{
    let mut args = argv;
    let ghost all = string_views(args@);
    if args.len() > 0 {
        args.remove(0);
        assert(string_views(args@) =~= all.drop_first());
    }
    let config = ConfigLoadOptions {
        roots: ConfigRoots::new(config_home, config_work),
        read_files: false,
        single_file: None,
        site_sources: Vec::new(),
    };
    let r = CliBoot {
        codec: None,
        loads: Vec::new(),
        native_audio_provider: None,
        config,
        list: false,
        inspect: None,
        payload: Payload { args, eval: None, script: None, stdin },
    };
    assert(crate::config::symbol_views(r.config.site_sources@) =~= Seq::<crate::symbol::SymbolView>::empty());
    assert(crate::boot::source_views(r.loads@) =~= Seq::<crate::source::SourceView>::empty());
    r
}

/// The supplied standard input as text: none when empty, else its UTF-8
/// text.
pub fn bootstrap_stdin(stdin: Vec<u8>) -> (r: Result<Option<String>, CliError>)
    ensures
        stdin@.len() == 0 ==> (r matches Ok(x) && x is None),
        stdin@.len() > 0 ==> match utf8_decoded(stdin@) {
            Some(t) => r matches Ok(x) && opt_view(x) == Some(t),
            None => r matches Err(e) && e.message@ == "bootstrap stdin is not valid UTF-8"@,
        },
{
    if stdin.len() == 0 {
        return Ok(None);
    }
    match decode_utf8(stdin) {
        Some(t) => Ok(Some(t)),
        None => Err(CliError::msg("bootstrap stdin is not valid UTF-8")),
    }
}

/// The boot of a supplied bootstrap envelope; fails only when its standard
/// input is not UTF-8.
pub fn supplied_bootstrap_boot(envelope: SuppliedEnvelope) -> (r: Result<CliBoot, CliError>)
    ensures
        envelope.stdin@.len() == 0 ==> (r matches Ok(b) && b.view() == supplied_boot_view(
            string_views(envelope.argv@),
            None,
            opt_view(envelope.config_home),
            envelope.config_work@,
        )),
        envelope.stdin@.len() > 0 ==> match utf8_decoded(envelope.stdin@) {
            Some(t) => r matches Ok(b) && b.view() == supplied_boot_view(
                string_views(envelope.argv@),
                Some(t),
                opt_view(envelope.config_home),
                envelope.config_work@,
            ),
            None => r matches Err(e) && e.message@ == "bootstrap stdin is not valid UTF-8"@,
        },
{
    let SuppliedEnvelope { argv, stdin, config_home, config_work } = envelope;
    match bootstrap_stdin(stdin) {
        Ok(text) => Ok(supplied_boot(argv, text, config_home, config_work)),
        Err(e) => Err(e),
    }
}

} // verus!
