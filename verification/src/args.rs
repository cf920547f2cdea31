//! The bootloader's command-line parser.
use vstd::prelude::*;
use vstd::string::*;

use crate::boot::{string_views, source_views, BootView, CliBoot, Payload, PayloadView};
use crate::config::{symbol_views, ConfigLoadOptions, ConfigView};
use crate::error::CliError;
use crate::source::{parse_source_spec, LibSourceSpec, SourceView};
use crate::symbol::{symbol_from_text, symbol_of_text};
use crate::text::{chars_eq, chars_of, concat2, starts_with_chars, string_of, sub_chars};

verus! {

broadcast use vstd::string::group_string_axioms;

/// Top-level command selected by the bootloader parser.
#[derive(Clone, Debug, PartialEq, Eq)]
pub enum CliCommand {
    /// Print the bootloader help text and exit.
    Help,
    /// Print the binary version and exit.
    Version,
    /// Load libraries and hand off to a loaded entrypoint.
    Boot(Box<CliBoot>),
}

/// Mathematical form of a command.
pub enum CommandView {
    Help,
    Version,
    Boot(BootView),
}

impl CliCommand {
    pub open spec fn view(&self) -> CommandView {
        match self {
            CliCommand::Help => CommandView::Help,
            CliCommand::Version => CommandView::Version,
            CliCommand::Boot(b) => CommandView::Boot(b.view()),
        }
    }
}

/// Mathematical form of a parse outcome.
pub open spec fn command_result(r: Result<CliCommand, CliError>) -> Result<CommandView, Seq<char>> {
    match r {
        Ok(c) => Ok(c.view()),
        Err(e) => Err(e.message@),
    }
}

/// A flag that takes a value, as `--flag VALUE` or `--flag=VALUE`.
#[derive(Clone, Copy, Debug, PartialEq, Eq, Structural)]
pub enum ValueFlag {
    Codec,
    Load,
    NativeAudioProvider,
    ConfigHome,
    ConfigWork,
    ConfigFile,
    ConfigSite,
    Inspect,
    Eval,
    Script,
    Stdin,
}

/// The spelling of a value flag.
pub open spec fn flag_name(k: ValueFlag) -> Seq<char> {
    match k {
        ValueFlag::Codec => "--codec"@,
        ValueFlag::Load => "--load"@,
        ValueFlag::NativeAudioProvider => "--native-audio-provider"@,
        ValueFlag::ConfigHome => "--config-home"@,
        ValueFlag::ConfigWork => "--config-work"@,
        ValueFlag::ConfigFile => "--config-file"@,
        ValueFlag::ConfigSite => "--config-site"@,
        ValueFlag::Inspect => "--inspect"@,
        ValueFlag::Eval => "--eval"@,
        ValueFlag::Script => "--script"@,
        ValueFlag::Stdin => "--stdin"@,
    }
}

/// The spelling of a value flag.
fn flag_name_exec(k: ValueFlag) -> (r: &'static str)
    ensures
        r@ == flag_name(k),
{
    match k {
        ValueFlag::Codec => "--codec",
        ValueFlag::Load => "--load",
        ValueFlag::NativeAudioProvider => "--native-audio-provider",
        ValueFlag::ConfigHome => "--config-home",
        ValueFlag::ConfigWork => "--config-work",
        ValueFlag::ConfigFile => "--config-file",
        ValueFlag::ConfigSite => "--config-site",
        ValueFlag::Inspect => "--inspect",
        ValueFlag::Eval => "--eval",
        ValueFlag::Script => "--script",
        ValueFlag::Stdin => "--stdin",
    }
}

/// The value flags in the order the parser tries them.
pub open spec fn flag_at(i: int) -> ValueFlag {
    if i == 0 {
        ValueFlag::Codec
    } else if i == 1 {
        ValueFlag::Load
    } else if i == 2 {
        ValueFlag::NativeAudioProvider
    } else if i == 3 {
        ValueFlag::ConfigHome
    } else if i == 4 {
        ValueFlag::ConfigWork
    } else if i == 5 {
        ValueFlag::ConfigFile
    } else if i == 6 {
        ValueFlag::ConfigSite
    } else if i == 7 {
        ValueFlag::Inspect
    } else if i == 8 {
        ValueFlag::Eval
    } else if i == 9 {
        ValueFlag::Script
    } else {
        ValueFlag::Stdin
    }
}

fn flag_at_exec(i: usize) -> (r: ValueFlag)
    ensures
        r == flag_at(i as int),
{
    if i == 0 {
        ValueFlag::Codec
    } else if i == 1 {
        ValueFlag::Load
    } else if i == 2 {
        ValueFlag::NativeAudioProvider
    } else if i == 3 {
        ValueFlag::ConfigHome
    } else if i == 4 {
        ValueFlag::ConfigWork
    } else if i == 5 {
        ValueFlag::ConfigFile
    } else if i == 6 {
        ValueFlag::ConfigSite
    } else if i == 7 {
        ValueFlag::Inspect
    } else if i == 8 {
        ValueFlag::Eval
    } else if i == 9 {
        ValueFlag::Script
    } else {
        ValueFlag::Stdin
    }
}

/// The first value flag, from index `i` on, that `arg` spells exactly.
pub open spec fn exact_flag_from(arg: Seq<char>, i: int) -> Option<ValueFlag>
    decreases 11 - i,
{
    if i < 0 || i >= 11 {
        None
    } else if arg == flag_name(flag_at(i)) {
        Some(flag_at(i))
    } else {
        exact_flag_from(arg, i + 1)
    }
}

/// The first value flag, from index `i` on, whose `--flag=` form `arg`
/// starts with.
pub open spec fn inline_flag_from(arg: Seq<char>, i: int) -> Option<ValueFlag>
    decreases 11 - i,
{
    if i < 0 || i >= 11 {
        None
    } else if crate::text::has_prefix(arg, flag_name(flag_at(i)) + "="@) {
        Some(flag_at(i))
    } else {
        inline_flag_from(arg, i + 1)
    }
}

/// A flag found by `inline_flag_from` prefixes the argument.
proof fn lemma_inline_flag_prefix(arg: Seq<char>, i: int)
    requires
        inline_flag_from(arg, i) is Some,
    ensures
        crate::text::has_prefix(arg, flag_name(inline_flag_from(arg, i)->0) + "="@),
    decreases 11 - i,
{
    if 0 <= i < 11 && !crate::text::has_prefix(arg, flag_name(flag_at(i)) + "="@) {
        lemma_inline_flag_prefix(arg, i + 1);
    }
}

/// How the parser reads one argument.
pub enum ArgClass {
    DoubleDash,
    Help,
    Version,
    List,
    NoConfigFiles,
    Exact(ValueFlag),
    Inline(ValueFlag),
    Payload,
    Unsupported,
}

/// How the parser reads one argument: exact spellings first, then the
/// `--flag=VALUE` forms, then the first payload token; anything else that
/// starts with `-` is unsupported.
pub open spec fn classify(arg: Seq<char>) -> ArgClass {
    if arg == "--"@ {
        ArgClass::DoubleDash
    } else if arg == "--help"@ || arg == "-h"@ || arg == "help"@ {
        ArgClass::Help
    } else if arg == "--version"@ || arg == "-V"@ || arg == "version"@ {
        ArgClass::Version
    } else if arg == "--list"@ {
        ArgClass::List
    } else if arg == "--no-config-files"@ {
        ArgClass::NoConfigFiles
    } else if exact_flag_from(arg, 0) is Some {
        ArgClass::Exact(exact_flag_from(arg, 0)->0)
    } else if inline_flag_from(arg, 0) is Some {
        ArgClass::Inline(inline_flag_from(arg, 0)->0)
    } else if arg.len() == 0 || arg[0] != '-' {
        ArgClass::Payload
    } else {
        ArgClass::Unsupported
    }
}

/// Parser state: the boot controls so far and which once-only flags were
/// seen.
pub struct ParseState {
    pub boot: BootView,
    pub seen_home: bool,
    pub seen_work: bool,
    pub seen_no_files: bool,
}

/// Outcome of reading one argument.
pub enum StepView {
    Next(int, ParseState),
    Stop(Result<CommandView, Seq<char>>),
}

/// Message for a flag given twice.
pub open spec fn dup_msg(flag: Seq<char>) -> Seq<char> {
    flag + " was provided more than once"@
}

/// Message for a flag without its value.
pub open spec fn missing_msg(flag: Seq<char>) -> Seq<char> {
    flag + " requires a value"@
}

/// Boot controls with arguments appended to the payload.
pub open spec fn with_payload_args(b: BootView, extra: Seq<Seq<char>>) -> BootView {
    BootView { payload: PayloadView { args: b.payload.args + extra, ..b.payload }, ..b }
}

/// Whether a flag may be given once and was already seen.
pub open spec fn seen_before(k: ValueFlag, st: ParseState) -> bool {
    (k == ValueFlag::ConfigHome && st.seen_home) || (k == ValueFlag::ConfigWork && st.seen_work)
}

/// What applying a flag's value does to the state.
pub open spec fn apply_value(k: ValueFlag, x: Seq<char>, st: ParseState) -> Result<ParseState, Seq<char>> {
    let b = st.boot;
    match k {
        ValueFlag::Codec => if b.codec is Some {
            Err(dup_msg(flag_name(k)))
        } else {
            Ok(ParseState { boot: BootView { codec: Some(x), ..b }, ..st })
        },
        ValueFlag::Load => match parse_source_spec(x) {
            Err(m) => Err(m),
            Ok(s) => Ok(ParseState { boot: BootView { loads: b.loads.push(s), ..b }, ..st }),
        },
        ValueFlag::NativeAudioProvider => match parse_source_spec(x) {
            Err(m) => Err(m),
            Ok(s) => if b.native_audio_provider is Some {
                Err(dup_msg(flag_name(k)))
            } else {
                Ok(ParseState { boot: BootView { native_audio_provider: Some(s), ..b }, ..st })
            },
        },
        ValueFlag::ConfigHome => Ok(
            ParseState {
                boot: BootView { config: ConfigView { home: Some(x), ..b.config }, ..b },
                seen_home: true,
                ..st
            },
        ),
        ValueFlag::ConfigWork => Ok(
            ParseState {
                boot: BootView { config: ConfigView { work: x, ..b.config }, ..b },
                seen_work: true,
                ..st
            },
        ),
        ValueFlag::ConfigFile => if b.config.single_file is Some {
            Err(dup_msg(flag_name(k)))
        } else {
            Ok(
                ParseState {
                    boot: BootView { config: ConfigView { single_file: Some(x), ..b.config }, ..b },
                    ..st
                },
            )
        },
        ValueFlag::ConfigSite => Ok(
            ParseState {
                boot: BootView {
                    config: ConfigView {
                        site_sources: b.config.site_sources.push(symbol_of_text(x)),
                        ..b.config
                    },
                    ..b
                },
                ..st
            },
        ),
        ValueFlag::Inspect => if b.inspect is Some {
            Err(dup_msg(flag_name(k)))
        } else {
            Ok(ParseState { boot: BootView { inspect: Some(x), ..b }, ..st })
        },
        ValueFlag::Eval => if b.payload.eval is Some {
            Err(dup_msg(flag_name(k)))
        } else {
            Ok(
                ParseState {
                    boot: BootView { payload: PayloadView { eval: Some(x), ..b.payload }, ..b },
                    ..st
                },
            )
        },
        ValueFlag::Script => if b.payload.script is Some {
            Err(dup_msg(flag_name(k)))
        } else {
            Ok(
                ParseState {
                    boot: BootView { payload: PayloadView { script: Some(x), ..b.payload }, ..b },
                    ..st
                },
            )
        },
        ValueFlag::Stdin => if b.payload.stdin is Some {
            Err(dup_msg(flag_name(k)))
        } else {
            Ok(
                ParseState {
                    boot: BootView { payload: PayloadView { stdin: Some(x), ..b.payload }, ..b },
                    ..st
                },
            )
        },
    }
}

/// What reading the argument at `cursor` does.
pub open spec fn parse_step(args: Seq<Seq<char>>, cursor: int, st: ParseState) -> StepView {
    let arg = args[cursor];
    match classify(arg) {
        ArgClass::DoubleDash => StepView::Stop(
            Ok(CommandView::Boot(with_payload_args(st.boot, args.skip(cursor + 1)))),
        ),
        ArgClass::Help => StepView::Stop(Ok(CommandView::Help)),
        ArgClass::Version => StepView::Stop(Ok(CommandView::Version)),
        ArgClass::List => StepView::Next(
            cursor + 1,
            ParseState { boot: BootView { list: true, ..st.boot }, ..st },
        ),
        ArgClass::NoConfigFiles => if st.seen_no_files {
            StepView::Stop(Err(dup_msg("--no-config-files"@)))
        } else {
            StepView::Next(
                cursor + 1,
                ParseState {
                    boot: BootView { config: ConfigView { read_files: false, ..st.boot.config }, ..st.boot },
                    seen_no_files: true,
                    ..st
                },
            )
        },
        ArgClass::Exact(k) => if seen_before(k, st) {
            StepView::Stop(Err(dup_msg(flag_name(k))))
        } else if cursor + 1 >= args.len() {
            StepView::Stop(Err(missing_msg(arg)))
        } else {
            match apply_value(k, args[cursor + 1], st) {
                Err(m) => StepView::Stop(Err(m)),
                Ok(s2) => StepView::Next(cursor + 2, s2),
            }
        },
        ArgClass::Inline(k) => if seen_before(k, st) {
            StepView::Stop(Err(dup_msg(flag_name(k))))
        } else {
            let x = arg.skip(flag_name(k).len() as int + 1);
            if x.len() == 0 {
                StepView::Stop(Err(missing_msg(flag_name(k))))
            } else {
                match apply_value(k, x, st) {
                    Err(m) => StepView::Stop(Err(m)),
                    Ok(s2) => StepView::Next(cursor + 1, s2),
                }
            }
        },
        ArgClass::Payload => StepView::Stop(
            Ok(CommandView::Boot(with_payload_args(st.boot, args.skip(cursor)))),
        ),
        ArgClass::Unsupported => StepView::Stop(Err("unsupported argument: "@ + arg)),
    }
}

/// The outcome of parsing from `cursor` on.
pub open spec fn parse_from(args: Seq<Seq<char>>, cursor: int, st: ParseState) -> Result<
    CommandView,
    Seq<char>,
>
    decreases args.len() - cursor,
{
    if cursor < 0 || cursor >= args.len() {
        Ok(CommandView::Boot(st.boot))
    } else {
        match parse_step(args, cursor, st) {
            StepView::Stop(r) => r,
            StepView::Next(c2, s2) => if cursor < c2 <= args.len() {
                parse_from(args, c2, s2)
            } else {
                Ok(CommandView::Boot(s2.boot))
            },
        }
    }
}

/// The state before any flag is read.
pub open spec fn initial_state(defaults: ConfigView) -> ParseState {
    ParseState {
        boot: BootView {
            codec: None,
            loads: Seq::empty(),
            native_audio_provider: None,
            config: defaults,
            list: false,
            inspect: None,
            payload: PayloadView { args: Seq::empty(), eval: None, script: None, stdin: None },
        },
        seen_home: false,
        seen_work: false,
        seen_no_files: false,
    }
}

/// What parsing a whole argument list yields. The first argument is the
/// program name; with nothing after it the command is help.
pub open spec fn parse_args_spec(args: Seq<Seq<char>>, defaults: ConfigView) -> Result<
    CommandView,
    Seq<char>,
> {
    let rest = if args.len() > 0 {
        args.drop_first()
    } else {
        args
    };
    if rest.len() == 0 {
        Ok(CommandView::Help)
    } else {
        parse_from(rest, 0, initial_state(defaults))
    }
}

/// Every value flag is spelled with a leading `-`.
proof fn lemma_flag_names_dashed(k: ValueFlag)
    ensures
        flag_name(k).len() > 0 && flag_name(k)[0] == '-',
{
    reveal_strlit("--codec");
    reveal_strlit("--load");
    reveal_strlit("--native-audio-provider");
    reveal_strlit("--config-home");
    reveal_strlit("--config-work");
    reveal_strlit("--config-file");
    reveal_strlit("--config-site");
    reveal_strlit("--inspect");
    reveal_strlit("--eval");
    reveal_strlit("--script");
    reveal_strlit("--stdin");
}

/// Text that does not start with `-` spells no value flag, in either form.
proof fn lemma_undashed_is_no_flag(t: Seq<char>, i: int)
    requires
        t.len() == 0 || t[0] != '-',
    ensures
        exact_flag_from(t, i) is None,
        inline_flag_from(t, i) is None,
    decreases 11 - i,
{
    if 0 <= i < 11 {
        lemma_flag_names_dashed(flag_at(i));
        let n = flag_name(flag_at(i));
        assert(t != n) by {
            if t == n {
                assert(t[0] == n[0]);
            }
        }
        assert(!crate::text::has_prefix(t, n + "="@)) by {
            if crate::text::has_prefix(t, n + "="@) {
                assert(t.take((n + "="@).len() as int)[0] == (n + "="@)[0]);
            }
        }
        lemma_undashed_is_no_flag(t, i + 1);
    }
}

/// A token that does not start with `-` and is not `help` or `version`
/// is read as payload.
proof fn lemma_payload_token(token: Seq<char>)
    requires
        token.len() == 0 || token[0] != '-',
        token != "help"@,
        token != "version"@,
    ensures
        classify(token) == ArgClass::Payload,
{
    reveal_strlit("--");
    reveal_strlit("--help");
    reveal_strlit("-h");
    reveal_strlit("--version");
    reveal_strlit("-V");
    reveal_strlit("--list");
    reveal_strlit("--no-config-files");
    lemma_undashed_is_no_flag(token, 0);
    assert(token != "--"@) by {
        if token == "--"@ {
            assert(token[0] == '-');
        }
    }
    assert(token != "--help"@ && token != "-h"@) by {
        if token == "--help"@ || token == "-h"@ {
            assert(token[0] == '-');
        }
    }
    assert(token != "--version"@ && token != "-V"@) by {
        if token == "--version"@ || token == "-V"@ {
            assert(token[0] == '-');
        }
    }
    assert(token != "--list"@ && token != "--no-config-files"@) by {
        if token == "--list"@ || token == "--no-config-files"@ {
            assert(token[0] == '-');
        }
    }
}

/// Asking for help as the first argument, as `--help`, `-h` or `help`,
/// gives the help command whatever follows.
pub proof fn law_help_request(program: Seq<char>, ask: Seq<char>, rest: Seq<Seq<char>>, defaults: ConfigView)
    requires
        ask == "--help"@ || ask == "-h"@ || ask == "help"@,
    ensures
        parse_args_spec(seq![program, ask] + rest, defaults) == Ok::<CommandView, Seq<char>>(
            CommandView::Help,
        ),
{
    reveal_strlit("--");
    reveal_strlit("--help");
    reveal_strlit("-h");
    reveal_strlit("help");
    assert(ask != "--"@) by {
        if ask == "--"@ {
            assert(ask.len() == 2);
            if ask == "-h"@ {
                assert(ask[1] == 'h');
            }
        }
    }
    let args = seq![program, ask] + rest;
    let tail = args.drop_first();
    assert(tail =~= seq![ask] + rest);
    assert(tail[0] == ask);
    assert(classify(ask) == ArgClass::Help);
}

/// Asking for the version as the first argument, as `--version`, `-V` or
/// `version`, gives the version command whatever follows.
pub proof fn law_version_request(program: Seq<char>, ask: Seq<char>, rest: Seq<Seq<char>>, defaults: ConfigView)
    requires
        ask == "--version"@ || ask == "-V"@ || ask == "version"@,
    ensures
        parse_args_spec(seq![program, ask] + rest, defaults) == Ok::<CommandView, Seq<char>>(
            CommandView::Version,
        ),
{
    reveal_strlit("--");
    reveal_strlit("--help");
    reveal_strlit("-h");
    reveal_strlit("help");
    reveal_strlit("--version");
    reveal_strlit("-V");
    reveal_strlit("version");
    assert(ask != "--"@ && ask != "--help"@ && ask != "-h"@ && ask != "help"@) by {
        if ask == "-V"@ {
            assert(ask[1] == 'V');
        }
        if ask == "--version"@ {
            assert(ask.len() == 9);
            assert(ask[2] == 'v');
        }
        if ask == "version"@ {
            assert(ask.len() == 7);
            assert(ask[0] == 'v');
        }
    }
    let args = seq![program, ask] + rest;
    let tail = args.drop_first();
    assert(tail =~= seq![ask] + rest);
    assert(tail[0] == ask);
    assert(classify(ask) == ArgClass::Version);
}

/// Everything after `--` is payload, handed over as it is and never read
/// as a flag.
pub proof fn law_double_dash_payload(program: Seq<char>, rest: Seq<Seq<char>>, defaults: ConfigView)
    ensures
        parse_args_spec(seq![program, "--"@] + rest, defaults) == Ok::<CommandView, Seq<char>>(
            CommandView::Boot(with_payload_args(initial_state(defaults).boot, rest)),
        ),
{
    let args = seq![program, "--"@] + rest;
    let tail = args.drop_first();
    assert(tail =~= seq!["--"@] + rest);
    assert(tail[0] == "--"@);
    assert(tail.skip(1) =~= rest);
}

/// The first argument that is not a flag starts the payload: it and
/// everything after it are handed over as they are.
pub proof fn law_first_payload_token(
    program: Seq<char>,
    token: Seq<char>,
    rest: Seq<Seq<char>>,
    defaults: ConfigView,
)
    requires
        token.len() == 0 || token[0] != '-',
        token != "help"@,
        token != "version"@,
    ensures
        parse_args_spec(seq![program, token] + rest, defaults) == Ok::<CommandView, Seq<char>>(
            CommandView::Boot(with_payload_args(initial_state(defaults).boot, seq![token] + rest)),
        ),
{
    let args = seq![program, token] + rest;
    let tail = args.drop_first();
    assert(tail =~= seq![token] + rest);
    assert(tail[0] == token);
    lemma_payload_token(token);
    assert(classify(token) == ArgClass::Payload);
    assert(tail.skip(0) =~= tail);
}

/// The state after reading `args` from `cursor` on purely as flags: every
/// step goes on to the next argument, and none starts the payload, stops
/// or fails; `None` otherwise.
pub open spec fn parse_flags(args: Seq<Seq<char>>, cursor: int, st: ParseState) -> Option<ParseState>
    decreases args.len() - cursor,
{
    if cursor < 0 || cursor > args.len() {
        None
    } else if cursor == args.len() {
        Some(st)
    } else {
        match parse_step(args, cursor, st) {
            StepView::Stop(_) => None,
            StepView::Next(c2, s2) => if cursor < c2 <= args.len() {
                parse_flags(args, c2, s2)
            } else {
                None
            },
        }
    }
}

proof fn lemma_payload_args_append(b: BootView, u: Seq<Seq<char>>, v: Seq<Seq<char>>)
    ensures
        with_payload_args(with_payload_args(b, u), v) == with_payload_args(b, u + v),
{
    assert(b.payload.args + u + v =~= b.payload.args + (u + v));
}

/// Appending a payload token after arguments that parse to a boot appends
/// the token and what follows it to that boot's payload.
proof fn lemma_extend_with_payload(
    a: Seq<Seq<char>>,
    ext: Seq<Seq<char>>,
    cursor: int,
    st: ParseState,
    b: BootView,
)
    requires
        0 <= cursor <= a.len(),
        parse_from(a, cursor, st) == Ok::<CommandView, Seq<char>>(CommandView::Boot(b)),
        ext.len() > 0,
        classify(ext[0]) == ArgClass::Payload,
    ensures
        parse_from(a + ext, cursor, st) == Ok::<CommandView, Seq<char>>(
            CommandView::Boot(with_payload_args(b, ext)),
        ),
    decreases a.len() - cursor,
{
    let e = a + ext;
    if cursor == a.len() {
        assert(e[cursor] == ext[0]);
        assert(e.skip(cursor) =~= ext);
    } else {
        assert(e[cursor] == a[cursor]);
        if cursor + 1 < a.len() {
            assert(e[cursor + 1] == a[cursor + 1]);
        }
        match parse_step(a, cursor, st) {
            StepView::Stop(r) => {
                match classify(a[cursor]) {
                    ArgClass::DoubleDash => {
                        assert(e.skip(cursor + 1) =~= a.skip(cursor + 1) + ext);
                        lemma_payload_args_append(st.boot, a.skip(cursor + 1), ext);
                    },
                    ArgClass::Payload => {
                        assert(e.skip(cursor) =~= a.skip(cursor) + ext);
                        lemma_payload_args_append(st.boot, a.skip(cursor), ext);
                    },
                    _ => {},
                }
            },
            StepView::Next(c2, s2) => {
                if cursor < c2 <= a.len() {
                    lemma_extend_with_payload(a, ext, c2, s2, b);
                }
            },
        }
    }
}

/// Arguments read purely as flags parse to the boot of the state they
/// leave, and what follows them is read from that state.
proof fn lemma_flags_then(a: Seq<Seq<char>>, ext: Seq<Seq<char>>, cursor: int, st: ParseState, s: ParseState)
    requires
        0 <= cursor <= a.len(),
        parse_flags(a, cursor, st) == Some(s),
    ensures
        parse_from(a, cursor, st) == Ok::<CommandView, Seq<char>>(CommandView::Boot(s.boot)),
        parse_from(a + ext, cursor, st) == parse_from(a + ext, a.len() as int, s),
    decreases a.len() - cursor,
{
    let e = a + ext;
    if cursor < a.len() {
        assert(e[cursor] == a[cursor]);
        if cursor + 1 < a.len() {
            assert(e[cursor + 1] == a[cursor + 1]);
        }
        match parse_step(a, cursor, st) {
            StepView::Stop(_) => {},
            StepView::Next(c2, s2) => {
                lemma_flags_then(a, ext, c2, s2, s);
            },
        }
    }
}

/// A payload token after any arguments that parse to a boot starts (or
/// continues) the payload: it and everything after it are appended to the
/// boot's payload as they are, and never read as flags.
pub proof fn law_payload_after_flags(
    program: Seq<char>,
    flags: Seq<Seq<char>>,
    token: Seq<char>,
    rest: Seq<Seq<char>>,
    defaults: ConfigView,
    b0: BootView,
)
    requires
        flags.len() > 0,
        parse_args_spec(seq![program] + flags, defaults) == Ok::<CommandView, Seq<char>>(
            CommandView::Boot(b0),
        ),
        token.len() == 0 || token[0] != '-',
        token != "help"@,
        token != "version"@,
    ensures
        parse_args_spec(seq![program] + flags + seq![token] + rest, defaults) == Ok::<
            CommandView,
            Seq<char>,
        >(CommandView::Boot(with_payload_args(b0, seq![token] + rest))),
{
    let args = seq![program] + flags + seq![token] + rest;
    assert((seq![program] + flags).drop_first() =~= flags);
    assert(args.drop_first() =~= flags + (seq![token] + rest));
    lemma_payload_token(token);
    lemma_extend_with_payload(flags, seq![token] + rest, 0, initial_state(defaults), b0);
}

/// After arguments read purely as flags, `--` hands everything after it
/// to the payload as it is.
pub proof fn law_double_dash_after_flags(
    program: Seq<char>,
    flags: Seq<Seq<char>>,
    rest: Seq<Seq<char>>,
    defaults: ConfigView,
    s: ParseState,
)
    requires
        parse_flags(flags, 0, initial_state(defaults)) == Some(s),
    ensures
        flags.len() > 0 ==> parse_args_spec(seq![program] + flags, defaults) == Ok::<
            CommandView,
            Seq<char>,
        >(CommandView::Boot(s.boot)),
        parse_args_spec(seq![program] + flags + seq!["--"@] + rest, defaults) == Ok::<
            CommandView,
            Seq<char>,
        >(CommandView::Boot(with_payload_args(s.boot, rest))),
{
    let ext = seq!["--"@] + rest;
    let args = seq![program] + flags + ext;
    assert((seq![program] + flags).drop_first() =~= flags);
    assert(args.drop_first() =~= flags + ext);
    lemma_flags_then(flags, ext, 0, initial_state(defaults), s);
    let e = flags + ext;
    let n = flags.len() as int;
    assert(e[n] == "--"@);
    assert(classify(e[n]) == ArgClass::DoubleDash);
    assert(e.skip(n + 1) =~= rest);
    assert(parse_step(e, n, s) == StepView::Stop(
        Ok::<CommandView, Seq<char>>(CommandView::Boot(with_payload_args(s.boot, rest))),
    ));
    assert(parse_from(e, n, s) == Ok::<CommandView, Seq<char>>(
        CommandView::Boot(with_payload_args(s.boot, rest)),
    ));
    assert(args.drop_first().len() > 0);
    assert(seq![program] + flags + seq!["--"@] + rest =~= args);
}

/// Executable parser state.
struct ParserState {
    boot: CliBoot,
    seen_home: bool,
    seen_work: bool,
    seen_no_files: bool,
}

impl ParserState {
    spec fn view(&self) -> ParseState {
        ParseState {
            boot: self.boot.view(),
            seen_home: self.seen_home,
            seen_work: self.seen_work,
            seen_no_files: self.seen_no_files,
        }
    }
}

enum StepOut {
    Next(usize, ParserState),
    Stop(Result<CliCommand, CliError>),
}

/// Fails when a once-only flag was already seen.
fn reject_seen(seen: bool, flag: &str) -> (r: Result<(), CliError>)
    ensures
        seen ==> (r matches Err(e) && e.message@ == dup_msg(flag@)),
        !seen ==> r is Ok,
{
    if seen {
        Err(CliError::duplicate(flag))
    } else {
        Ok(())
    }
}

/// Fails when a once-only slot is already filled.
fn set_once<T>(filled: bool, flag: &str) -> (r: Result<(), CliError>)
    ensures
        filled ==> (r matches Err(e) && e.message@ == dup_msg(flag@)),
        !filled ==> r is Ok,
{
    if filled {
        Err(CliError::duplicate(flag))
    } else {
        Ok(())
    }
}

/// The value of `--flag=VALUE`; an empty value is missing.
fn inline_value(arg: &Vec<char>, k: ValueFlag) -> (r: Result<String, CliError>)
    requires
        crate::text::has_prefix(arg@, flag_name(k) + "="@),
    ensures
        arg@.skip(flag_name(k).len() as int + 1).len() == 0 ==> (r matches Err(e) && e.message@
            == missing_msg(flag_name(k))),
        arg@.skip(flag_name(k).len() as int + 1).len() > 0 ==> (r matches Ok(v) && v@ == arg@.skip(
            flag_name(k).len() as int + 1,
        )),
{
    proof {
        reveal_strlit("=");
    }
    let name = flag_name_exec(k);
    let n = name.unicode_len();
    assert((flag_name(k) + "="@).len() == n + 1);
    let alen = arg.len();
    assert(n + 1 <= alen);
    let rest = sub_chars(arg, n + 1, alen);
    assert(rest@ =~= arg@.skip(flag_name(k).len() as int + 1));
    if rest.len() == 0 {
        Err(CliError::missing_value(name))
    } else {
        Ok(string_of(&rest))
    }
}

/// Applies a flag's value to the state.
fn apply_value_exec(k: ValueFlag, x: String, st: ParserState) -> (r: Result<ParserState, CliError>)
    ensures
        match apply_value(k, x@, st.view()) {
            Ok(s2) => r matches Ok(s) && s.view() == s2,
            Err(m) => r matches Err(e) && e.message@ == m,
        },
{
    let mut st = st;
    let ghost old_st = st.view();
    let name = flag_name_exec(k);
    match k {
        ValueFlag::Codec => {
            set_once::<String>(st.boot.codec.is_some(), name)?;
            st.boot.codec = Some(x);
        },
        ValueFlag::Load => {
            let s = LibSourceSpec::parse_source(x.as_str())?;
            let ghost sv = s.view();
            let ghost old_loads = st.boot.loads@;
            st.boot.loads.push(s);
            assert(source_views(st.boot.loads@) =~= source_views(old_loads).push(sv));
        },
        ValueFlag::NativeAudioProvider => {
            let s = LibSourceSpec::parse_source(x.as_str())?;
            set_once::<LibSourceSpec>(st.boot.native_audio_provider.is_some(), name)?;
            st.boot.native_audio_provider = Some(Box::new(s));
        },
        ValueFlag::ConfigHome => {
            st.seen_home = true;
            st.boot.config.roots.home = Some(x);
        },
        ValueFlag::ConfigWork => {
            st.seen_work = true;
            st.boot.config.roots.work = x;
        },
        ValueFlag::ConfigFile => {
            set_once::<String>(st.boot.config.single_file.is_some(), name)?;
            st.boot.config.single_file = Some(x);
        },
        ValueFlag::ConfigSite => {
            let site = symbol_from_text(x.as_str());
            let ghost sv = site.view();
            let ghost old_sites = st.boot.config.site_sources@;
            st.boot.config.site_sources.push(site);
            assert(symbol_views(st.boot.config.site_sources@) =~= symbol_views(old_sites).push(sv));
        },
        ValueFlag::Inspect => {
            set_once::<String>(st.boot.inspect.is_some(), name)?;
            st.boot.inspect = Some(x);
        },
        ValueFlag::Eval => {
            set_once::<String>(st.boot.payload.eval.is_some(), name)?;
            st.boot.payload.eval = Some(x);
        },
        ValueFlag::Script => {
            set_once::<String>(st.boot.payload.script.is_some(), name)?;
            st.boot.payload.script = Some(x);
        },
        ValueFlag::Stdin => {
            set_once::<String>(st.boot.payload.stdin.is_some(), name)?;
            st.boot.payload.stdin = Some(x);
        },
    }
    Ok(st)
}

/// Whether `arg` spells one of the given literals.
fn is_one_of(arg: &Vec<char>, a: &str, b: &str, c: &str) -> (r: bool)
    ensures
        r == (arg@ == a@ || arg@ == b@ || arg@ == c@),
{
    chars_eq(arg, &chars_of(a)) || chars_eq(arg, &chars_of(b)) || chars_eq(arg, &chars_of(c))
}

/// The first value flag that `arg` spells exactly.
fn exact_flag(arg: &Vec<char>) -> (r: Option<ValueFlag>)
    ensures
        r == exact_flag_from(arg@, 0),
{
    let mut i: usize = 0;
    while i < 11
        invariant
            i <= 11,
            exact_flag_from(arg@, 0) == exact_flag_from(arg@, i as int),
        decreases 11 - i,
    {
        let k = flag_at_exec(i);
        if chars_eq(arg, &chars_of(flag_name_exec(k))) {
            return Some(k);
        }
        i = i + 1;
    }
    None
}

/// The first value flag whose `--flag=` form `arg` starts with.
fn inline_flag(arg: &Vec<char>) -> (r: Option<ValueFlag>)
    ensures
        r == inline_flag_from(arg@, 0),
{
    proof {
        reveal_strlit("=");
    }
    let mut i: usize = 0;
    while i < 11
        invariant
            i <= 11,
            inline_flag_from(arg@, 0) == inline_flag_from(arg@, i as int),
        decreases 11 - i,
    {
        let k = flag_at_exec(i);
        let prefix = concat2(flag_name_exec(k), "=");
        if starts_with_chars(arg, &chars_of(prefix.as_str())) {
            return Some(k);
        }
        i = i + 1;
    }
    None
}

/// Moves the arguments from `from` on into the payload.
fn append_payload(args: &Vec<String>, from: usize, boot: CliBoot) -> (r: CliBoot)
    requires
        from <= args@.len(),
    ensures
        r.view() == with_payload_args(boot.view(), string_views(args@).skip(from as int)),
{
    let ghost orig = boot.view();
    let mut boot = boot;
    let mut k: usize = from;
    proof {
        assert(orig.payload.args + string_views(args@).subrange(from as int, from as int)
            =~= orig.payload.args);
        assert(boot.view() == with_payload_args(orig, string_views(args@).subrange(from as int, from as int)));
    }
    while k < args.len()
        invariant
            from <= k <= args@.len(),
            boot.view() == with_payload_args(orig, string_views(args@).subrange(from as int, k as int)),
        decreases args@.len() - k,
    {
        let ghost before = boot.payload.args@;
        boot.payload.args.push(args[k].clone());
        proof {
            let sub = string_views(args@).subrange(from as int, k as int);
            let sub2 = string_views(args@).subrange(from as int, k + 1);
            assert(sub2 =~= sub.push(args@[k as int]@));
            assert(string_views(boot.payload.args@) =~= string_views(before).push(args@[k as int]@));
            assert(string_views(boot.payload.args@) =~= orig.payload.args + sub2);
            assert(boot.view() == with_payload_args(orig, sub2));
        }
        k = k + 1;
    }
    assert(string_views(args@).subrange(from as int, args@.len() as int) =~= string_views(args@).skip(
        from as int,
    ));
    boot
}

/// Reads the argument at `cursor`.
fn parse_step_exec(args: &Vec<String>, cursor: usize, st: ParserState) -> (r: StepOut)
    requires
        cursor < args@.len(),
    ensures
        match r {
            StepOut::Next(c, s) => parse_step(string_views(args@), cursor as int, st.view())
                == StepView::Next(c as int, s.view()),
            StepOut::Stop(res) => parse_step(string_views(args@), cursor as int, st.view())
                == StepView::Stop(command_result(res)),
        },
{
    let ghost av = string_views(args@);
    let total = args.len();
    let arg = chars_of(args[cursor].as_str());
    assert(arg@ == av[cursor as int]);
    let mut st = st;
    if chars_eq(&arg, &chars_of("--")) {
        let boot = append_payload(args, cursor + 1, st.boot);
        return StepOut::Stop(Ok(CliCommand::Boot(Box::new(boot))));
    }
    if is_one_of(&arg, "--help", "-h", "help") {
        return StepOut::Stop(Ok(CliCommand::Help));
    }
    if is_one_of(&arg, "--version", "-V", "version") {
        return StepOut::Stop(Ok(CliCommand::Version));
    }
    if chars_eq(&arg, &chars_of("--list")) {
        st.boot.list = true;
        return StepOut::Next(cursor + 1, st);
    }
    if chars_eq(&arg, &chars_of("--no-config-files")) {
        if st.seen_no_files {
            return StepOut::Stop(Err(CliError::duplicate("--no-config-files")));
        }
        st.seen_no_files = true;
        st.boot.config.read_files = false;
        return StepOut::Next(cursor + 1, st);
    }
    match exact_flag(&arg) {
        Some(k) => {
            let name = flag_name_exec(k);
            let seen = (k == ValueFlag::ConfigHome && st.seen_home) || (k == ValueFlag::ConfigWork
                && st.seen_work);
            if seen {
                return StepOut::Stop(Err(CliError::duplicate(name)));
            }
            if cursor + 1 >= args.len() {
                return StepOut::Stop(Err(CliError::missing_value(args[cursor].as_str())));
            }
            let value = args[cursor + 1].clone();
            return match apply_value_exec(k, value, st) {
                Err(e) => StepOut::Stop(Err(e)),
                Ok(s2) => StepOut::Next(cursor + 2, s2),
            };
        },
        None => {},
    }
    match inline_flag(&arg) {
        Some(k) => {
            let name = flag_name_exec(k);
            let seen = (k == ValueFlag::ConfigHome && st.seen_home) || (k == ValueFlag::ConfigWork
                && st.seen_work);
            if seen {
                return StepOut::Stop(Err(CliError::duplicate(name)));
            }
            proof {
                lemma_inline_flag_prefix(arg@, 0);
            }
            return match inline_value(&arg, k) {
                Err(e) => StepOut::Stop(Err(e)),
                Ok(value) => match apply_value_exec(k, value, st) {
                    Err(e) => StepOut::Stop(Err(e)),
                    Ok(s2) => StepOut::Next(cursor + 1, s2),
                },
            };
        },
        None => {},
    }
    if arg.len() == 0 || arg[0] != '-' {
        let boot = append_payload(args, cursor, st.boot);
        return StepOut::Stop(Ok(CliCommand::Boot(Box::new(boot))));
    }
    StepOut::Stop(Err(CliError::unsupported(args[cursor].as_str())))
}

/// Parses the bootloader flags. The first argument is the program name and
/// is skipped; an empty list selects help. `defaults` are the configuration
/// options in force before any `--config-*` flag.
pub fn parse_args(args: Vec<String>, defaults: ConfigLoadOptions) -> (r: Result<CliCommand, CliError>)
    ensures
        command_result(r) == parse_args_spec(string_views(args@), defaults.view()),
{
    let ghost all = string_views(args@);
    let mut rest = args;
    if rest.len() > 0 {
        rest.remove(0);
        assert(string_views(rest@) =~= all.drop_first());
    }
    if rest.len() == 0 {
        return Ok(CliCommand::Help);
    }
    let ghost av = string_views(rest@);
    let mut st = ParserState {
        boot: CliBoot {
            codec: None,
            loads: Vec::new(),
            native_audio_provider: None,
            config: defaults,
            list: false,
            inspect: None,
            payload: Payload { args: Vec::new(), eval: None, script: None, stdin: None },
        },
        seen_home: false,
        seen_work: false,
        seen_no_files: false,
    };
    proof {
        assert(source_views(st.boot.loads@) =~= Seq::<SourceView>::empty());
        assert(string_views(st.boot.payload.args@) =~= Seq::<Seq<char>>::empty());
        assert(st.view() == initial_state(defaults.view()));
    }
    let mut cursor: usize = 0;
    while cursor < rest.len()
        invariant
            av == string_views(rest@),
            all == string_views(args@),
            all.len() > 0,
            av == all.drop_first(),
            cursor <= rest@.len(),
            parse_from(av, cursor as int, st.view()) == parse_from(av, 0, initial_state(defaults.view())),
        decreases rest@.len() - cursor,
    {
        let ghost sv = st.view();
        match parse_step_exec(&rest, cursor, st) {
            StepOut::Next(c, s) => {
                proof {
                    assert(parse_from(av, cursor as int, sv) == parse_from(av, c as int, s.view()));
                }
                cursor = c;
                st = s;
            },
            StepOut::Stop(res) => {
                proof {
                    assert(parse_from(av, cursor as int, sv) == command_result(res));
                    assert(av.len() > 0);
                    assert(parse_args_spec(all, defaults.view()) == parse_from(
                        av,
                        0,
                        initial_state(defaults.view()),
                    ));
                }
                return res;
            },
        }
    }
    Ok(CliCommand::Boot(Box::new(st.boot)))
}

} // verus!
