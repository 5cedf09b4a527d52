//! Severity levels and the line classifier.
//!
//! A line signals a level when it contains that level's token,
//! case-insensitively. Tokens are tried in a fixed priority order — `ERROR`,
//! `WARN`, `INFO`, `DEBUG`, `TRACE` — and the first match wins. This is a
//! deliberate heuristic on raw text, not a structured parser: a word that
//! merely contains a token (say "infotainment") classifies as that level.

use vstd::prelude::*;

use crate::text::{contains_ci, eq_ci, equals_ci, find_ci};

verus! {

/// The five severity levels a log line can signal.
#[derive(Clone, Copy, Debug, PartialEq, Eq, Hash, Structural)]
pub enum LogLevelFilter {
    Error,
    Warn,
    Info,
    Debug,
    Trace,
}

/// The terminal styling attached to each severity level. The library only
/// chooses the style; rendering belongs to the caller.
#[derive(Clone, Copy, Debug, PartialEq, Eq, Structural)]
pub enum ColorStyle {
    RedBold,
    YellowBold,
    Green,
    Blue,
    Magenta,
}

/// The uppercase token that signals a level, as bytes: `ERROR`, `WARN`,
/// `INFO`, `DEBUG` or `TRACE`.
pub open spec fn token_of(level: LogLevelFilter) -> Seq<u8> {
    match level {
        LogLevelFilter::Error => seq![69u8, 82u8, 82u8, 79u8, 82u8],
        LogLevelFilter::Warn => seq![87u8, 65u8, 82u8, 78u8],
        LogLevelFilter::Info => seq![73u8, 78u8, 70u8, 79u8],
        LogLevelFilter::Debug => seq![68u8, 69u8, 66u8, 85u8, 71u8],
        LogLevelFilter::Trace => seq![84u8, 82u8, 65u8, 67u8, 69u8],
    }
}

/// The classifier: the first level, in priority order, whose token the line
/// contains case-insensitively; `None` when no token occurs.
pub open spec fn spec_classify(line: Seq<u8>) -> Option<LogLevelFilter> {
    if contains_ci(line, token_of(LogLevelFilter::Error)) {
        Some(LogLevelFilter::Error)
    } else if contains_ci(line, token_of(LogLevelFilter::Warn)) {
        Some(LogLevelFilter::Warn)
    } else if contains_ci(line, token_of(LogLevelFilter::Info)) {
        Some(LogLevelFilter::Info)
    } else if contains_ci(line, token_of(LogLevelFilter::Debug)) {
        Some(LogLevelFilter::Debug)
    } else if contains_ci(line, token_of(LogLevelFilter::Trace)) {
        Some(LogLevelFilter::Trace)
    } else {
        None
    }
}

/// The level whose name `name` is, case-insensitively; `None` otherwise.
pub open spec fn spec_level_from_name(name: Seq<u8>) -> Option<LogLevelFilter> {
    if eq_ci(name, token_of(LogLevelFilter::Error)) {
        Some(LogLevelFilter::Error)
    } else if eq_ci(name, token_of(LogLevelFilter::Warn)) {
        Some(LogLevelFilter::Warn)
    } else if eq_ci(name, token_of(LogLevelFilter::Info)) {
        Some(LogLevelFilter::Info)
    } else if eq_ci(name, token_of(LogLevelFilter::Debug)) {
        Some(LogLevelFilter::Debug)
    } else if eq_ci(name, token_of(LogLevelFilter::Trace)) {
        Some(LogLevelFilter::Trace)
    } else {
        None
    }
}

/// The style chosen for each level.
pub open spec fn spec_style_of(level: LogLevelFilter) -> ColorStyle {
    match level {
        LogLevelFilter::Error => ColorStyle::RedBold,
        LogLevelFilter::Warn => ColorStyle::YellowBold,
        LogLevelFilter::Info => ColorStyle::Green,
        LogLevelFilter::Debug => ColorStyle::Blue,
        LogLevelFilter::Trace => ColorStyle::Magenta,
    }
}

/// A level's place in the classification priority order: `Error` first.
pub open spec fn rank_of(level: LogLevelFilter) -> int {
    match level {
        LogLevelFilter::Error => 0,
        LogLevelFilter::Warn => 1,
        LogLevelFilter::Info => 2,
        LogLevelFilter::Debug => 3,
        LogLevelFilter::Trace => 4,
    }
}

/// A level's display name (its uppercase token), as bytes.
pub fn level_name(level: LogLevelFilter) -> (r: Vec<u8>)
    ensures
        r@ == token_of(level),
{
    let mut r: Vec<u8> = Vec::new();
    match level {
        LogLevelFilter::Error => {
            r.push(69);
            r.push(82);
            r.push(82);
            r.push(79);
            r.push(82);
        },
        LogLevelFilter::Warn => {
            r.push(87);
            r.push(65);
            r.push(82);
            r.push(78);
        },
        LogLevelFilter::Info => {
            r.push(73);
            r.push(78);
            r.push(70);
            r.push(79);
        },
        LogLevelFilter::Debug => {
            r.push(68);
            r.push(69);
            r.push(66);
            r.push(85);
            r.push(71);
        },
        LogLevelFilter::Trace => {
            r.push(84);
            r.push(82);
            r.push(65);
            r.push(67);
            r.push(69);
        },
    }
    proof {
        assert(r@ =~= token_of(level));
    }
    r
}

/// Classify one raw line: the first level, in priority order, whose token it
/// contains case-insensitively. Total — it never fails.
pub fn parse_log_level(line: &[u8]) -> (r: Option<LogLevelFilter>)
    ensures
        r == spec_classify(line@),
{
    let error_tok = level_name(LogLevelFilter::Error);
    if find_ci(line, error_tok.as_slice()) {
        return Some(LogLevelFilter::Error);
    }
    let warn_tok = level_name(LogLevelFilter::Warn);
    if find_ci(line, warn_tok.as_slice()) {
        return Some(LogLevelFilter::Warn);
    }
    let info_tok = level_name(LogLevelFilter::Info);
    if find_ci(line, info_tok.as_slice()) {
        return Some(LogLevelFilter::Info);
    }
    let debug_tok = level_name(LogLevelFilter::Debug);
    if find_ci(line, debug_tok.as_slice()) {
        return Some(LogLevelFilter::Debug);
    }
    let trace_tok = level_name(LogLevelFilter::Trace);
    if find_ci(line, trace_tok.as_slice()) {
        return Some(LogLevelFilter::Trace);
    }
    None
}

/// Read a level from its name, case-insensitively: `error`, `Warn`, `INFO`
/// and the like. `None` when the name is no level.
pub fn level_from_name(name: &[u8]) -> (r: Option<LogLevelFilter>)
    ensures
        r == spec_level_from_name(name@),
{
    let error_tok = level_name(LogLevelFilter::Error);
    if equals_ci(name, error_tok.as_slice()) {
        return Some(LogLevelFilter::Error);
    }
    let warn_tok = level_name(LogLevelFilter::Warn);
    if equals_ci(name, warn_tok.as_slice()) {
        return Some(LogLevelFilter::Warn);
    }
    let info_tok = level_name(LogLevelFilter::Info);
    if equals_ci(name, info_tok.as_slice()) {
        return Some(LogLevelFilter::Info);
    }
    let debug_tok = level_name(LogLevelFilter::Debug);
    if equals_ci(name, debug_tok.as_slice()) {
        return Some(LogLevelFilter::Debug);
    }
    let trace_tok = level_name(LogLevelFilter::Trace);
    if equals_ci(name, trace_tok.as_slice()) {
        return Some(LogLevelFilter::Trace);
    }
    None
}

/// The style chosen for a level's echoed lines.
pub fn style_of(level: LogLevelFilter) -> (r: ColorStyle)
    ensures
        r == spec_style_of(level),
{
    match level {
        LogLevelFilter::Error => ColorStyle::RedBold,
        LogLevelFilter::Warn => ColorStyle::YellowBold,
        LogLevelFilter::Info => ColorStyle::Green,
        LogLevelFilter::Debug => ColorStyle::Blue,
        LogLevelFilter::Trace => ColorStyle::Magenta,
    }
}

/// Classification returns one of the five fixed levels, and obeys the
/// priority order `Error`, `Warn`, `Info`, `Debug`, `Trace`: when several
/// tokens occur in one line, the earlier level wins.
pub proof fn lemma_classify_priority(line: Seq<u8>)
    ensures
        contains_ci(line, token_of(LogLevelFilter::Error)) ==> spec_classify(line) == Some(
            LogLevelFilter::Error,
        ),
        !contains_ci(line, token_of(LogLevelFilter::Error)) && contains_ci(
            line,
            token_of(LogLevelFilter::Warn),
        ) ==> spec_classify(line) == Some(LogLevelFilter::Warn),
        !contains_ci(line, token_of(LogLevelFilter::Error)) && !contains_ci(
            line,
            token_of(LogLevelFilter::Warn),
        ) && contains_ci(line, token_of(LogLevelFilter::Info)) ==> spec_classify(line) == Some(
            LogLevelFilter::Info,
        ),
        !contains_ci(line, token_of(LogLevelFilter::Error)) && !contains_ci(
            line,
            token_of(LogLevelFilter::Warn),
        ) && !contains_ci(line, token_of(LogLevelFilter::Info)) && contains_ci(
            line,
            token_of(LogLevelFilter::Debug),
        ) ==> spec_classify(line) == Some(LogLevelFilter::Debug),
        !contains_ci(line, token_of(LogLevelFilter::Error)) && !contains_ci(
            line,
            token_of(LogLevelFilter::Warn),
        ) && !contains_ci(line, token_of(LogLevelFilter::Info)) && !contains_ci(
            line,
            token_of(LogLevelFilter::Debug),
        ) && contains_ci(line, token_of(LogLevelFilter::Trace)) ==> spec_classify(line) == Some(
            LogLevelFilter::Trace,
        ),
        spec_classify(line) matches Some(l) ==> (l == LogLevelFilter::Error || l
            == LogLevelFilter::Warn || l == LogLevelFilter::Info || l == LogLevelFilter::Debug || l
            == LogLevelFilter::Trace),
        spec_classify(line) is None <==> (forall|l: LogLevelFilter|
            !contains_ci(line, token_of(l))),
{
    if spec_classify(line) is None {
        assert forall|l: LogLevelFilter| !contains_ci(line, token_of(l)) by {
            match l {
                LogLevelFilter::Error => {},
                LogLevelFilter::Warn => {},
                LogLevelFilter::Info => {},
                LogLevelFilter::Debug => {},
                LogLevelFilter::Trace => {},
            }
        }
    }
}

} // verus!
