//! What is set up for log output: which writers, under which filter, once a process.
use vstd::prelude::*;
use vstd::string::StringExecFns;

use crate::build_options;
use crate::text;

verus! {

/// Where a program's log goes unless a file is asked for.
#[derive(Debug, Clone, Copy, PartialEq, Eq, Structural)]
pub enum LogTarget {
    /// Standard output.
    Stdout,
    /// Nowhere but a file, so that a screen that is being drawn stays whole.
    File,
    /// The output that the test harness keeps for failures.
    Test,
}

/// A writer that is not a file.
#[derive(Debug, Clone, Copy, PartialEq, Eq, Structural)]
pub enum DefaultWriter {
    Stdout,
    TestCapture,
}

/// The writers that are set up: the target's own, and the file that was opened.
#[derive(Debug)]
pub struct LogLayers {
    pub default_layer: Option<DefaultWriter>,
    pub file: Option<String>,
}

/// What is left to the caller of `init`: nothing, where the log is set up already, or
/// to set it up.
#[derive(Debug)]
pub enum LogStart {
    Done,
    Start { default_layer: Option<DefaultWriter>, open: Option<String> },
}

/// What the process was started with, as far as the log goes.
#[derive(Debug)]
pub struct LogSettings {
    pub log_file: Option<String>,
    pub log_to_file: Option<String>,
    pub process_id: u32,
}

/// Whether the process has set up its log.
#[derive(Debug, Clone, Copy, PartialEq, Eq, Structural)]
pub struct Logging {
    pub started: bool,
}

/// The file that the settings ask for. An empty name asks for none, whatever the older
/// setting says.
pub open spec fn log_file_of(s: LogSettings) -> Option<Seq<char>> {
    match s.log_file {
        Some(path) => if path@.len() == 0 {
            None
        } else {
            Some(path@)
        },
        None => match s.log_to_file {
            Some(v) => if v@ == "1"@ {
                Some("neomacs-"@ + text::decimal(s.process_id as nat) + ".log"@)
            } else {
                None
            },
            None => None,
        },
    }
}

/// The file that the log goes to, if one is asked for.
pub fn resolve_env_log_file(s: &LogSettings) -> (r: Option<String>)
    ensures
        match log_file_of(*s) {
            Some(path) => r matches Some(p) && p@ == path,
            None => r is None,
        },
{
    match &s.log_file {
        Some(path) => {
            return if path.as_str().is_empty() {
                None
            } else {
                Some(text::copy(path.as_str()))
            };
        },
        None => {},
    }
    match &s.log_to_file {
        Some(v) => if text::same(v.as_str(), "1") {
            let mut name: String = text::copy("neomacs-");
            name.append(text::decimal_text(s.process_id as u64).as_str());
            name.append(".log");
            Some(name)
        } else {
            None
        },
        None => None,
    }
}

/// The writer that a target has of itself.
pub open spec fn default_of(target: LogTarget) -> Option<DefaultWriter> {
    match target {
        LogTarget::Stdout => Some(DefaultWriter::Stdout),
        LogTarget::File => None,
        LogTarget::Test => Some(DefaultWriter::TestCapture),
    }
}

pub fn default_layer(target: LogTarget) -> (r: Option<DefaultWriter>)
    ensures
        r == default_of(target),
{
    match target {
        LogTarget::Stdout => Some(DefaultWriter::Stdout),
        LogTarget::File => None,
        LogTarget::Test => Some(DefaultWriter::TestCapture),
    }
}

/// What `init` leaves to its caller.
pub open spec fn start_of(r: LogStart, started: bool, target: LogTarget, s: LogSettings) -> bool {
    if started {
        r is Done
    } else {
        r matches LogStart::Start { default_layer, open } && default_layer == default_of(target)
            && match log_file_of(s) {
            Some(path) => open matches Some(p) && p@ == path,
            None => open is None,
        }
    }
}

/// The log as a process starts with it: not set up.
pub fn fresh() -> (r: Logging)
    ensures
        !r.started,
{
    Logging { started: false }
}

/// Says how the log is set up. Only the first call of a process sets it up.
pub fn init(state: &mut Logging, target: LogTarget, settings: &LogSettings) -> (r: LogStart)
    ensures
        final(state).started,
        start_of(r, old(state).started, target, *settings),
{
    if state.started {
        return LogStart::Done;
    }
    state.started = true;
    LogStart::Start {
        default_layer: self::default_layer(target),
        open: resolve_env_log_file(settings),
    }
}

/// Says how the log is set up for a test.
pub fn init_for_tests(state: &mut Logging, settings: &LogSettings) -> (r: LogStart)
    ensures
        final(state).started,
        start_of(r, old(state).started, LogTarget::Test, *settings),
{
    init(state, LogTarget::Test, settings)
}

/// The writers that are set up once the file was tried; a file that could not be
/// opened is left out.
pub fn layers(start: LogStart, opened: bool) -> (r: LogLayers)
    ensures
        match start {
            LogStart::Done => r.default_layer is None && r.file is None,
            LogStart::Start { default_layer, open } => r.default_layer == default_layer && if opened {
                r.file == open
            } else {
                r.file is None
            },
        },
{
    match start {
        LogStart::Done => LogLayers { default_layer: None, file: None },
        LogStart::Start { default_layer, open } => LogLayers {
            default_layer: default_layer,
            file: if opened {
                open
            } else {
                None
            },
        },
    }
}

/// Setting the log up twice leaves nothing to do the second time, whatever the second
/// call asks for.
pub proof fn law_init_is_idempotent(
    first: LogStart,
    second: LogStart,
    before: Logging,
    after: Logging,
    t1: LogTarget,
    t2: LogTarget,
    s1: LogSettings,
    s2: LogSettings,
)
    requires
        start_of(first, before.started, t1, s1),
        after.started,
        start_of(second, after.started, t2, s2),
    ensures
        second is Done,
        !before.started ==> !(first is Done),
{
}

/// The target that keeps off the screen writes nothing but a file, and no file unless
/// one is asked for.
pub proof fn law_file_target_is_silent(r: LogStart, s: LogSettings)
    requires
        start_of(r, false, LogTarget::File, s),
    ensures
        r matches LogStart::Start { default_layer, open } && default_layer is None && (open is None
            <==> log_file_of(s) is None),
{
}

/// Whether a text is a list of filter directives that can be read.
pub uninterp spec fn filter_parses(directives: Seq<char>) -> bool;

/// A directive that can be handed to the parser. It takes its places from the directive
/// without the white space around it, and cuts the whole directive at them: behind leading
/// white space a place may be inside a character. It cuts only where a level or a span is
/// named.
pub open spec fn is_safe_directive(d: Seq<char>) -> bool {
    ||| d.len() == 0
    ||| !text::is_space(d[0])
    ||| forall|i: int| 0 <= i < d.len() ==> (#[trigger] d[i]) <= '\u{7f}'
    ||| forall|i: int| 0 <= i < d.len() ==> (#[trigger] d[i]) != '=' && d[i] != '['
}

/// Directives that can all be handed to the parser.
pub open spec fn are_safe_directives(directives: Seq<char>) -> bool {
    forall|i: int|
        0 <= i < text::split_at_char(directives, ',').len() ==> is_safe_directive(
            #[trigger] text::split_at_char(directives, ',')[i],
        )
}

fn directive_is_safe(d: &str) -> (r: bool)
    ensures
        r == is_safe_directive(d@),
{
    let v: Vec<char> = text::chars_of(d);
    if v.len() == 0 || !text::is_whitespace(v[0]) {
        return true;
    }
    let mut ascii: bool = true;
    let mut plain: bool = true;
    let mut i: usize = 0;
    while i < v.len()
        invariant
            i <= v.len(),
            v@ == d@,
            ascii == forall|j: int| 0 <= j < i ==> (#[trigger] d@[j]) <= '\u{7f}',
            plain == forall|j: int| 0 <= j < i ==> (#[trigger] d@[j]) != '=' && d@[j] != '[',
        decreases v.len() - i,
    {
        let c: char = v[i];
        ascii = ascii && c <= '\u{7f}';
        plain = plain && c != '=' && c != '[';
        i += 1;
    }
    ascii || plain
}

/// Whether directives can all be handed to the parser.
pub fn directives_are_safe(directives: &str) -> (r: bool)
    ensures
        r == are_safe_directives(directives@),
{
    let v: Vec<char> = text::chars_of(directives);
    let pieces: Vec<String> = text::split(v.as_slice(), ',');
    let ghost all = text::split_at_char(directives@, ',');
    let mut i: usize = 0;
    while i < pieces.len()
        invariant
            i <= pieces.len(),
            text::texts(pieces@) == all,
            all == text::split_at_char(directives@, ','),
            forall|j: int| 0 <= j < i ==> is_safe_directive(#[trigger] all[j]),
        decreases pieces.len() - i,
    {
        proof {
            assert(all[i as int] == pieces@[i as int]@);
        }
        if !directive_is_safe(pieces[i].as_str()) {
            return false;
        }
        i += 1;
    }
    true
}

/// `tracing_subscriber::EnvFilter::try_new`: whether it takes the directives, which
/// depends on nothing but their text. Where a directive is not safe, it may panic. The
/// room that it takes for the pattern of a field is not spoken of.
#[verifier::external_body]
fn filter_accepts(directives: &str) -> (r: bool)
    requires
        are_safe_directives(directives@),
    ensures
        r == filter_parses(directives@),
{
    tracing_subscriber::EnvFilter::try_new(directives).is_ok()
}

/// The directives that count: those of the environment where they can be read, else
/// warnings and worse.
pub open spec fn directives_of(given: Option<Seq<char>>, accepted: bool) -> Seq<char> {
    match given {
        Some(d) => if accepted {
            d
        } else {
            "warn"@
        },
        None => "warn"@,
    }
}

/// Picks the directives, given whether those of the environment can be read.
pub fn filter_directives(given: Option<&str>, accepted: bool) -> (r: String)
    ensures
        r@ == directives_of(build_options::opt_text(given), accepted),
{
    match given {
        Some(d) => if accepted {
            text::copy(d)
        } else {
            text::copy("warn")
        },
        None => text::copy("warn"),
    }
}

/// The directives that the log is filtered by. Those that cannot be handed to the parser
/// cannot be read.
pub fn make_env_filter(rust_log: Option<&str>) -> (r: String)
    ensures
        match rust_log {
            Some(d) => r@ == directives_of(
                Some(d@),
                are_safe_directives(d@) && filter_parses(d@),
            ),
            None => r@ == "warn"@,
        },
{
    let accepted: bool = match rust_log {
        Some(d) => directives_are_safe(d) && filter_accepts(d),
        None => false,
    };
    filter_directives(rust_log, accepted)
}

/// What is said where the log file could not be opened.
pub fn open_file_warning(path: &str, cause: &str) -> (r: String)
    ensures
        r@ == "warning: could not open log file "@ + path@ + ": "@ + cause@
            + "; continuing without file output"@,
{
    let mut out: String = text::copy("warning: could not open log file ");
    out.append(path);
    out.append(": ");
    out.append(cause);
    out.append("; continuing without file output");
    out
}

/// Where a panic came up.
#[derive(Debug)]
pub struct PanicSite {
    pub file: String,
    pub line: u32,
    pub column: u32,
}

pub open spec fn site_text(site: Option<PanicSite>) -> Seq<char> {
    match site {
        Some(s) => s.file@ + ":"@ + text::decimal(s.line as nat) + ":"@ + text::decimal(
            s.column as nat,
        ),
        None => "<unknown>"@,
    }
}

pub open spec fn payload_text(payload: Option<Seq<char>>) -> Seq<char> {
    match payload {
        Some(p) => p,
        None => "<non-string payload>"@,
    }
}

/// What is kept of a panic.
pub fn panic_record(site: &Option<PanicSite>, payload: Option<&str>, backtrace: &str) -> (r: String)
    ensures
        r@ == "=== PANIC ===\nAT: "@ + site_text(*site) + "\nPAYLOAD: "@ + payload_text(
            build_options::opt_text(payload),
        ) + "\nBACKTRACE:\n"@ + backtrace@ + "\n\n"@,
{
    let mut out: String = text::copy("=== PANIC ===\nAT: ");
    let mut place: String = String::new();
    match site {
        Some(s) => {
            place.append(s.file.as_str());
            place.append(":");
            place.append(text::decimal_text(s.line as u64).as_str());
            place.append(":");
            place.append(text::decimal_text(s.column as u64).as_str());
            proof {
                assert(place@ =~= site_text(*site));
            }
        },
        None => {
            place.append("<unknown>");
            proof {
                assert(place@ =~= site_text(*site));
            }
        },
    }
    out.append(place.as_str());
    out.append("\nPAYLOAD: ");
    match payload {
        Some(p) => {
            out.append(p);
        },
        None => {
            out.append("<non-string payload>");
        },
    }
    out.append("\nBACKTRACE:\n");
    out.append(backtrace);
    out.append("\n\n");
    out
}

} // verus!
