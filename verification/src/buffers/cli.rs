//! Decisions of the `weaver-buffers` command line: the poll interval,
//! the de-duplicated list of paths, the socket, and how a failure is
//! reported and which exit code it ends with.

use vstd::prelude::*;
use crate::buffers::model::{ObserverError, StartupKind};
use crate::buffers::publisher::PublisherError;
use crate::cli::config::{join, join_path};
use crate::text::{chars_of, is_digit, str_eq};

verus! {

/// A path could not be opened at startup.
pub const EXIT_STARTUP_FAILURE: i32 = 1;

/// The bus is unreachable or went away.
pub const EXIT_BUS_UNAVAILABLE: i32 = 2;

/// Another instance owns a buffer.
pub const EXIT_AUTHORITY_CONFLICT: i32 = 3;

/// Anything else.
pub const EXIT_INTERNAL: i32 = 10;

/// `humantime::DurationError`, carried opaquely.
#[verifier::external_type_specification]
#[verifier::external_body]
pub struct ExDurationError(humantime::DurationError);

/// The total nanoseconds of the duration `humantime::parse_duration`
/// reads from the text, or `None` when it rejects the text.
pub uninterp spec fn humantime_nanos(s: Seq<char>) -> Option<u128>;

/// A character after which a duration text starts a new number: a
/// unit letter, or the decimal point before a fraction.
pub open spec fn ends_number(c: char) -> bool {
    ('a' <= c && c <= 'z') || ('A' <= c && c <= 'Z') || c == '\u{b5}' || c == '.'
}

/// Scanning a duration text: how many significant digits it has so far
/// (digits from the first non-zero digit of each number on), and
/// whether the number being read has had a non-zero digit.
pub open spec fn digit_scan(s: Seq<char>) -> (nat, bool)
    decreases s.len(),
{
    if s.len() == 0 {
        (0, false)
    } else {
        let (n, nonzero) = digit_scan(s.drop_last());
        let c = s.last();
        if is_digit(c) {
            if c != '0' || nonzero {
                (n + 1, true)
            } else {
                (n, false)
            }
        } else if ends_number(c) {
            (n, false)
        } else {
            (n, nonzero)
        }
    }
}

/// The significant digits of a duration text: leading zeros of its
/// numbers do not count.
pub open spec fn significant_digits(s: Seq<char>) -> nat {
    digit_scan(s).0
}

/// The most significant digits a poll interval's text may hold. A
/// duration text whose numbers add up to `u64::MAX` seconds makes
/// `humantime::parse_duration` panic. With at most this many
/// significant digits every number is below `10^11` and so is their
/// sum, a fraction adds less than one unit, and the largest unit (a
/// year, 31 557 600 seconds) keeps the total far below `u64::MAX`
/// seconds.
pub const MAX_DURATION_DIGITS: usize = 11;

/// Whether `input` holds at most [`MAX_DURATION_DIGITS`] significant
/// digits.
pub fn duration_digits_within_limit(input: &str) -> (r: bool)
    ensures
        r == (significant_digits(input@) <= MAX_DURATION_DIGITS),
{
    let cs = chars_of(input);
    let mut n: usize = 0;
    let mut nonzero = false;
    let mut i: usize = 0;
    while i < cs.len()
        invariant
            i <= cs@.len(),
            (n as nat, nonzero) == digit_scan(cs@.subrange(0, i as int)),
            n <= i,
        decreases cs@.len() - i,
    {
        proof {
            assert(cs@.subrange(0, i + 1).drop_last() =~= cs@.subrange(0, i as int));
            assert(cs@.subrange(0, i + 1).last() == cs@[i as int]);
        }
        let c = cs[i];
        if '0' <= c && c <= '9' {
            if c != '0' || nonzero {
                n = n + 1;
                nonzero = true;
            }
        } else if ('a' <= c && c <= 'z') || ('A' <= c && c <= 'Z') || c == '\u{b5}' || c == '.' {
            nonzero = false;
        }
        i = i + 1;
    }
    proof {
        assert(cs@.subrange(0, i as int) =~= input@);
    }
    n <= MAX_DURATION_DIGITS
}

/// `humantime::parse_duration`, with the parsed duration's total
/// nanoseconds beside it. Trusted: the call succeeds exactly when
/// [`humantime_nanos`] of the text is some value, and the nanoseconds
/// returned are that value. The bound on significant digits keeps the
/// call from panicking (it panics only when the seconds reach
/// `u64::MAX`).
#[verifier::external_body]
fn humantime_parse(input: &str) -> (r: Result<(std::time::Duration, u128), humantime::DurationError>)
    requires
        significant_digits(input@) <= MAX_DURATION_DIGITS,
    ensures
        r is Ok <==> humantime_nanos(input@) is Some,
        r matches Ok((_, n)) ==> humantime_nanos(input@) == Some(n),
{
    humantime::parse_duration(input).map(|d| (d, d.as_nanos()))
}

/// Why the poll interval is unusable.
#[derive(Debug)]
pub enum CliError {
    BadPollInterval { source: humantime::DurationError },
    /// A zero interval (which the timer cannot tick at).
    ZeroPollInterval,
}

/// Parse the poll interval: a humantime duration that is not zero,
/// returned with its total nanoseconds.
pub fn parse_duration(input: &str) -> (r: Result<(std::time::Duration, u128), CliError>)
    requires
        significant_digits(input@) <= MAX_DURATION_DIGITS,
    ensures
        humantime_nanos(input@) is None ==> r matches Err(CliError::BadPollInterval { .. }),
        humantime_nanos(input@) == Some(0u128) ==> r matches Err(CliError::ZeroPollInterval),
        humantime_nanos(input@) matches Some(n) && n > 0 ==> (r matches Ok((_, m)) && Some(m) == humantime_nanos(input@)),
{
    match humantime_parse(input) {
        Err(source) => Err(CliError::BadPollInterval { source }),
        Ok((d, nanos)) => {
            if nanos == 0 {
                Err(CliError::ZeroPollInterval)
            } else {
                Ok((d, nanos))
            }
        },
    }
}

/// The first occurrence of each path, in first-seen order.
pub open spec fn dedup_first(s: Seq<Seq<char>>) -> Seq<Seq<char>>
    decreases s.len(),
{
    if s.len() == 0 {
        Seq::empty()
    } else if dedup_first(s.drop_last()).contains(s.last()) {
        dedup_first(s.drop_last())
    } else {
        dedup_first(s.drop_last()).push(s.last())
    }
}

/// Deduplication keeps every path and repeats none: the result holds
/// exactly the paths of the input, each once.
pub proof fn lemma_dedup_first_keeps_each_once(s: Seq<Seq<char>>)
    ensures
        forall|x: Seq<char>| #[trigger] dedup_first(s).contains(x) <==> s.contains(x),
        forall|i: int, j: int|
            0 <= i < j < dedup_first(s).len() ==> #[trigger] dedup_first(s)[i] != #[trigger] dedup_first(s)[j],
    decreases s.len(),
{
    if s.len() > 0 {
        let t = s.drop_last();
        let x = s.last();
        lemma_dedup_first_keeps_each_once(t);
        assert(s =~= t.push(x));
        assert forall|y: Seq<char>| #[trigger] dedup_first(s).contains(y) <==> s.contains(y) by {
            if s.contains(y) {
                let k = choose|k: int| 0 <= k < s.len() && s[k] == y;
                if k < t.len() {
                    assert(t[k] == y);
                    assert(t.contains(y));
                }
            }
            if t.contains(y) {
                let k = choose|k: int| 0 <= k < t.len() && t[k] == y;
                assert(s[k] == y);
            }
            if !dedup_first(t).contains(x) {
                let d = dedup_first(t);
                assert(d.push(x)[d.len() as int] == x);
                if d.push(x).contains(y) && y != x {
                    let k = choose|k: int| 0 <= k < d.push(x).len() && d.push(x)[k] == y;
                    assert(d[k] == y);
                }
                if d.contains(y) {
                    let k = choose|k: int| 0 <= k < d.len() && d[k] == y;
                    assert(d.push(x)[k] == y);
                }
            }
            assert(s[s.len() - 1] == x);
        }
    }
}

/// Deduplication keeps first-seen order: what the first `m` paths
/// deduplicate to is a prefix of what all of them deduplicate to.
pub proof fn lemma_dedup_first_seen_order(s: Seq<Seq<char>>, m: int)
    requires
        0 <= m <= s.len(),
    ensures
        dedup_first(s.take(m)).is_prefix_of(dedup_first(s)),
    decreases s.len(),
{
    if m == s.len() {
        assert(s.take(m) =~= s);
    } else {
        let t = s.drop_last();
        lemma_dedup_first_seen_order(t, m);
        assert(t.take(m) =~= s.take(m));
        let a = dedup_first(s.take(m));
        let b = dedup_first(t);
        let c = dedup_first(s);
        assert(b.is_prefix_of(c)) by {
            assert(s.drop_last() == t);
            if !b.contains(s.last()) {
                assert forall|k: int| 0 <= k < b.len() implies c[k] == b[k] by {
                    assert(b.push(s.last())[k] == b[k]);
                }
            }
        }
        assert forall|k: int| 0 <= k < a.len() implies c[k] == a[k] by {
            assert(b[k] == a[k]);
        }
    }
}

/// Deduplicating paths that are already distinct leaves them as they are.
pub proof fn lemma_dedup_first_of_distinct(s: Seq<Seq<char>>)
    requires
        forall|i: int, j: int| 0 <= i < j < s.len() ==> #[trigger] s[i] != #[trigger] s[j],
    ensures
        dedup_first(s) == s,
    decreases s.len(),
{
    if s.len() > 0 {
        let t = s.drop_last();
        assert forall|i: int, j: int| 0 <= i < j < t.len() implies #[trigger] t[i] != #[trigger] t[j] by {
            assert(t[i] == s[i] && t[j] == s[j]);
        }
        lemma_dedup_first_of_distinct(t);
        if t.contains(s.last()) {
            let k = choose|k: int| 0 <= k < t.len() && t[k] == s.last();
            assert(s[k] == s[s.len() - 1]);
        }
        assert(s =~= t.push(s.last()));
    }
}

/// The views of a sequence of strings.
pub open spec fn string_views(s: Seq<String>) -> Seq<Seq<char>> {
    s.map_values(|x: String| x@)
}

fn contains_str(v: &Vec<String>, x: &String) -> (r: bool)
    ensures
        r == string_views(v@).contains(x@),
{
    let mut i: usize = 0;
    while i < v.len()
        invariant
            i <= v@.len(),
            forall|j: int| 0 <= j < i ==> (#[trigger] v@[j])@ != x@,
        decreases v@.len() - i,
    {
        if str_eq(v[i].as_str(), x.as_str()) {
            assert(string_views(v@)[i as int] == x@);
            return true;
        }
        i = i + 1;
    }
    proof {
        if string_views(v@).contains(x@) {
            let j = choose|j: int| 0 <= j < string_views(v@).len() && string_views(v@)[j] == x@;
            assert(v@[j]@ == x@);
        }
    }
    false
}

/// Drop repeated paths, keeping the first occurrence of each in order.
/// The keys are the canonical forms of the command-line paths (or the
/// raw paths where those could not be canonicalised).
pub fn dedup_paths(keys: Vec<String>) -> (out: Vec<String>)
    ensures
        string_views(out@) == dedup_first(string_views(keys@)),
        forall|x: Seq<char>| #[trigger] string_views(out@).contains(x) <==> string_views(keys@).contains(x),
        forall|i: int, j: int|
            0 <= i < j < out@.len() ==> #[trigger] string_views(out@)[i] != #[trigger] string_views(out@)[j],
        forall|m: int|
            0 <= m <= keys@.len() ==> #[trigger] dedup_first(string_views(keys@).take(m)).is_prefix_of(
                string_views(out@),
            ),
{
    let mut out: Vec<String> = Vec::new();
    let mut i: usize = 0;
    while i < keys.len()
        invariant
            i <= keys@.len(),
            string_views(out@) == dedup_first(string_views(keys@.subrange(0, i as int))),
        decreases keys@.len() - i,
    {
        let ghost prev = string_views(keys@.subrange(0, i as int));
        let ghost next = string_views(keys@.subrange(0, i + 1));
        proof {
            assert(next.drop_last() =~= prev);
            assert(next.last() == keys@[i as int]@);
        }
        let k = keys[i].clone();
        if !contains_str(&out, &k) {
            out.push(k);
            assert(string_views(out@) =~= dedup_first(prev).push(keys@[i as int]@));
        }
        i = i + 1;
    }
    assert(keys@.subrange(0, i as int) =~= keys@);
    proof {
        lemma_dedup_first_keeps_each_once(string_views(keys@));
        assert forall|m: int| 0 <= m <= keys@.len() implies #[trigger] dedup_first(string_views(keys@).take(m)).is_prefix_of(
            string_views(out@),
        ) by {
            lemma_dedup_first_seen_order(string_views(keys@), m);
        }
    }
    out
}

/// The socket: the explicit one, else `weaver.sock` under
/// `$XDG_RUNTIME_DIR`, else `/tmp/weaver.sock`.
pub fn resolve_socket(explicit: Option<String>, xdg_runtime_dir: Option<&str>) -> (r: String)
    ensures
        match explicit {
            Some(p) => r == p,
            None => match xdg_runtime_dir {
                Some(x) => r@ == join_path(x@, "weaver.sock"@),
                None => r@ == "/tmp/weaver.sock"@,
            },
        },
{
    match explicit {
        Some(p) => p,
        None => match xdg_runtime_dir {
            Some(x) => join(x, "weaver.sock"),
            None => String::from_str("/tmp/weaver.sock"),
        },
    }
}

/// A startup failure as reported to the operator.
#[derive(Debug)]
pub enum StartupDiagnostic {
    NotOpenable { path: String, reason: String },
    NotRegularFile { path: String },
    TooLarge { path: String },
    AuthorityConflict { detail: String },
}

/// The diagnostic of a startup failure; a mid-session error that
/// reaches startup is reported as not openable at `<unknown>`.
pub fn observer_to_diagnostic(err: ObserverError) -> (d: StartupDiagnostic)
    ensures
        err matches ObserverError::StartupFailure { path, reason, kind } ==> match kind {
            StartupKind::NotOpenable => d matches StartupDiagnostic::NotOpenable { path: p, reason: r } && p == path
                && r == reason,
            StartupKind::NotRegularFile => d matches StartupDiagnostic::NotRegularFile { path: p } && p == path,
            StartupKind::TooLarge => d matches StartupDiagnostic::TooLarge { path: p } && p == path,
        },
        !(err is StartupFailure) ==> (d matches StartupDiagnostic::NotOpenable { path: p, .. } && p@ == "<unknown>"@),
{
    match err {
        ObserverError::StartupFailure { path, reason, kind: StartupKind::NotOpenable } => StartupDiagnostic::NotOpenable {
            path,
            reason,
        },
        ObserverError::StartupFailure { path, kind: StartupKind::NotRegularFile, .. } => {
            StartupDiagnostic::NotRegularFile { path }
        },
        ObserverError::StartupFailure { path, kind: StartupKind::TooLarge, .. } => StartupDiagnostic::TooLarge { path },
        other => {
            let reason = other.to_display_string();
            StartupDiagnostic::NotOpenable { path: String::from_str("<unknown>"), reason }
        },
    }
}

impl StartupDiagnostic {
    /// The stable diagnostic code.
    pub fn code(&self) -> (r: &'static str)
        ensures
            r@ == match *self {
                StartupDiagnostic::NotOpenable { .. } => "WEAVER-BUF-001"@,
                StartupDiagnostic::NotRegularFile { .. } => "WEAVER-BUF-002"@,
                StartupDiagnostic::TooLarge { .. } => "WEAVER-BUF-003"@,
                StartupDiagnostic::AuthorityConflict { .. } => "WEAVER-BUF-004"@,
            },
    {
        match self {
            StartupDiagnostic::NotOpenable { .. } => "WEAVER-BUF-001",
            StartupDiagnostic::NotRegularFile { .. } => "WEAVER-BUF-002",
            StartupDiagnostic::TooLarge { .. } => "WEAVER-BUF-003",
            StartupDiagnostic::AuthorityConflict { .. } => "WEAVER-BUF-004",
        }
    }

    /// The message of the diagnostic.
    pub fn message(&self) -> (s: String)
        ensures
            s@ == match *self {
                StartupDiagnostic::NotOpenable { path, reason } => "buffer not openable at "@ + path@ + ": "@ + reason@,
                StartupDiagnostic::NotRegularFile { path } => "buffer not openable at "@ + path@
                    + ": path is not a regular file"@,
                StartupDiagnostic::TooLarge { path } => "buffer not openable at "@ + path@
                    + ": file size exceeds available memory"@,
                StartupDiagnostic::AuthorityConflict { detail } => "buffer/* fact family is already claimed: "@
                    + detail@,
            },
    {
        match self {
            StartupDiagnostic::NotOpenable { path, reason } => {
                let mut s = String::from_str("buffer not openable at ");
                s.append(path.as_str());
                s.append(": ");
                s.append(reason.as_str());
                s
            },
            StartupDiagnostic::NotRegularFile { path } => {
                let mut s = String::from_str("buffer not openable at ");
                s.append(path.as_str());
                s.append(": path is not a regular file");
                s
            },
            StartupDiagnostic::TooLarge { path } => {
                let mut s = String::from_str("buffer not openable at ");
                s.append(path.as_str());
                s.append(": file size exceeds available memory");
                s
            },
            StartupDiagnostic::AuthorityConflict { detail } => {
                let mut s = String::from_str("buffer/* fact family is already claimed: ");
                s.append(detail.as_str());
                s
            },
        }
    }

    /// The operator hint of the diagnostic.
    pub fn help(&self) -> (r: &'static str)
        ensures
            r@ == match *self {
                StartupDiagnostic::NotOpenable { .. } => "no fact (entity:<derived>, attribute:buffer/path) can be asserted.\nPoint weaver-buffers at a regular file whose content you want to observe."@,
                StartupDiagnostic::NotRegularFile { .. } => "weaver-buffers only opens regular files.\nDirectory-level observation is not supported."@,
                StartupDiagnostic::TooLarge { .. } => "weaver-buffers reads each buffer's content fully into memory at open time.\nStreaming-open is not yet supported."@,
                StartupDiagnostic::AuthorityConflict { .. } => "only one weaver-buffers instance may own a given buffer entity at a time.\nStop the other instance, or open a different file."@,
            },
    {
        match self {
            StartupDiagnostic::NotOpenable { .. } => "no fact (entity:<derived>, attribute:buffer/path) can be asserted.\nPoint weaver-buffers at a regular file whose content you want to observe.",
            StartupDiagnostic::NotRegularFile { .. } => "weaver-buffers only opens regular files.\nDirectory-level observation is not supported.",
            StartupDiagnostic::TooLarge { .. } => "weaver-buffers reads each buffer's content fully into memory at open time.\nStreaming-open is not yet supported.",
            StartupDiagnostic::AuthorityConflict { .. } => "only one weaver-buffers instance may own a given buffer entity at a time.\nStop the other instance, or open a different file.",
        }
    }
}

/// The exit code a publisher failure ends the process with.
pub fn exit_code_for(err: &PublisherError) -> (r: i32)
    ensures
        r == match *err {
            PublisherError::BusUnavailable { .. } => EXIT_BUS_UNAVAILABLE,
            PublisherError::AuthorityConflict { .. } => EXIT_AUTHORITY_CONFLICT,
            PublisherError::Observer { .. } => EXIT_STARTUP_FAILURE,
            PublisherError::Client { .. } => EXIT_INTERNAL,
        },
{
    match err {
        PublisherError::BusUnavailable { .. } => EXIT_BUS_UNAVAILABLE,
        PublisherError::AuthorityConflict { .. } => EXIT_AUTHORITY_CONFLICT,
        PublisherError::Observer { .. } => EXIT_STARTUP_FAILURE,
        PublisherError::Client { .. } => EXIT_INTERNAL,
    }
}

/// The default log level for a verbosity count.
pub fn default_level(verbose: u8) -> (r: &'static str)
    ensures
        r@ == if verbose == 0 { "info"@ } else if verbose == 1 { "debug"@ } else { "trace"@ },
{
    if verbose == 0 {
        "info"
    } else if verbose == 1 {
        "debug"
    } else {
        "trace"
    }
}

} // verus!
