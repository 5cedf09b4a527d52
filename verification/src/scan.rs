//! The single-pass analysis loop.
//!
//! Each line is classified, tallied, and held against the active filters; the
//! caller is told whether to echo it. After the last line the run's summary
//! is assembled. Reading lines and printing belong to the caller: the library
//! takes plain byte lines and returns plain decisions.

use vstd::prelude::*;

use crate::level::{parse_log_level, spec_classify, LogLevelFilter};
use crate::tally::{sorted_entries, TallyTable};
use crate::text::{contains_ci, find_ci};

verus! {

/// One run's configuration: the optional level filter and the optional
/// case-insensitive search term. The file path stays with the caller.
pub struct Config {
    pub level_filter: Option<LogLevelFilter>,
    pub search_term: Option<Vec<u8>>,
}

/// The line counters of one run.
#[derive(Clone, Copy, Debug, PartialEq, Eq, Structural)]
pub struct RunStatistics {
    pub total_lines: usize,
    pub matched_lines: usize,
}

/// Whether any filter is configured; only then are matching lines echoed.
pub open spec fn filters_active(cfg: Config) -> bool {
    cfg.level_filter is Some || cfg.search_term is Some
}

/// Whether a line's classification passes the level filter: no filter passes
/// everything; a filter passes exactly its own level, so an unclassified line
/// never passes an active filter.
pub open spec fn level_passes(cfg: Config, level: Option<LogLevelFilter>) -> bool {
    match cfg.level_filter {
        None => true,
        Some(f) => level == Some(f),
    }
}

/// Whether a line passes the keyword filter: no term passes everything, a
/// term must occur in the raw line, case-insensitively.
pub open spec fn search_passes(cfg: Config, line: Seq<u8>) -> bool {
    match cfg.search_term {
        None => true,
        Some(t) => contains_ci(line, t@),
    }
}

/// Whether a line survives both active filters.
pub open spec fn line_matches(cfg: Config, line: Seq<u8>) -> bool {
    level_passes(cfg, spec_classify(line)) && search_passes(cfg, line)
}

/// Whether a line is echoed: only when a filter is active and the line
/// survives the filters.
pub open spec fn should_emit(cfg: Config, line: Seq<u8>) -> bool {
    filters_active(cfg) && line_matches(cfg, line)
}

/// The views of a run's lines.
pub open spec fn line_views(lines: Seq<Vec<u8>>) -> Seq<Seq<u8>> {
    Seq::new(lines.len(), |i: int| lines[i]@)
}

/// How many of `lines` survive the filters of `cfg`.
pub open spec fn matched_count(cfg: Config, lines: Seq<Seq<u8>>) -> nat
    decreases lines.len(),
{
    if lines.len() == 0 {
        0
    } else {
        matched_count(cfg, lines.drop_last()) + (if line_matches(cfg, lines.last()) {
            1nat
        } else {
            0nat
        })
    }
}

/// How many of `lines` classify as `level`.
pub open spec fn level_count(lines: Seq<Seq<u8>>, level: LogLevelFilter) -> nat
    decreases lines.len(),
{
    if lines.len() == 0 {
        0
    } else {
        level_count(lines.drop_last(), level) + (if spec_classify(lines.last()) == Some(level) {
            1nat
        } else {
            0nat
        })
    }
}

/// How many of `lines` classify at all.
pub open spec fn classified_count(lines: Seq<Seq<u8>>) -> nat
    decreases lines.len(),
{
    if lines.len() == 0 {
        0
    } else {
        classified_count(lines.drop_last()) + (if spec_classify(lines.last()) is Some {
            1nat
        } else {
            0nat
        })
    }
}

/// What one run over `lines` under `cfg` must produce: the total is the
/// number of lines, the matched count and the per-level tallies are the ones
/// the classifier and the filters dictate.
pub open spec fn is_run_outcome(
    cfg: Config,
    lines: Seq<Seq<u8>>,
    stats: RunStatistics,
    tally: TallyTable,
) -> bool {
    &&& stats.total_lines == lines.len()
    &&& stats.matched_lines == matched_count(cfg, lines)
    &&& forall|l: LogLevelFilter| #[trigger] tally.spec_count(l) == level_count(lines, l)
}

/// The running state of one analysis: the configuration, the tally and the
/// line counters.
pub struct Analyzer {
    pub config: Config,
    pub tally: TallyTable,
    pub stats: RunStatistics,
}

/// What the loop decides about one line: whether to echo it, and the level it
/// classified at, for styling.
#[derive(Clone, Copy, Debug, PartialEq, Eq, Structural)]
pub struct LineOutcome {
    pub emit: bool,
    pub level: Option<LogLevelFilter>,
}

/// Everything a whole run produces: final counters, the tally, and the
/// indices of the lines to echo, in input order.
pub struct AnalysisReport {
    pub stats: RunStatistics,
    pub tally: TallyTable,
    pub echoed: Vec<usize>,
}

/// The final summary block: the total, the matched count only when a filter
/// was active, and the sorted level/count table. An empty table means the
/// "no recognizable log levels" notice is owed.
pub struct Summary {
    pub total_lines: usize,
    pub matched_lines: Option<usize>,
    pub entries: Vec<(LogLevelFilter, usize)>,
}

impl Analyzer {
    /// The state is sound: the matched count and the tally total never pass
    /// the number of lines seen.
    pub open spec fn wf(self) -> bool {
        self.stats.matched_lines <= self.stats.total_lines && self.tally.spec_total()
            <= self.stats.total_lines as nat
    }

    /// A fresh run: nothing seen, nothing tallied.
    pub fn new(config: Config) -> (r: Analyzer)
        ensures
            r.config == config,
            r.stats.total_lines == 0,
            r.stats.matched_lines == 0,
            forall|l: LogLevelFilter| r.tally.spec_count(l) == 0,
            r.wf(),
    {
        Analyzer {
            config,
            tally: TallyTable::new(),
            stats: RunStatistics { total_lines: 0, matched_lines: 0 },
        }
    }

    /// One step of the scan: count the line, tally its level, hold it against
    /// the filters, and say whether to echo it.
    pub fn process_line(&mut self, line: &[u8]) -> (r: LineOutcome)
        requires
            old(self).wf(),
            old(self).stats.total_lines < usize::MAX,
        ensures
            final(self).wf(),
            final(self).config == old(self).config,
            final(self).stats.total_lines == old(self).stats.total_lines + 1,
            final(self).stats.matched_lines == old(self).stats.matched_lines + (if line_matches(
                old(self).config,
                line@,
            ) {
                1int
            } else {
                0int
            }),
            forall|l: LogLevelFilter|
                final(self).tally.spec_count(l) == old(self).tally.spec_count(l) + (
                if spec_classify(line@) == Some(l) {
                    1int
                } else {
                    0int
                }),
            r.level == spec_classify(line@),
            r.emit == should_emit(old(self).config, line@),
    {
        self.stats.total_lines = self.stats.total_lines + 1;
        let level = parse_log_level(line);
        if let Some(l) = level {
            proof {
                assert(self.tally.spec_count(l) <= self.tally.spec_total());
            }
            self.tally.record(l);
        }
        let level_ok = match (self.config.level_filter, level) {
            (None, _) => true,
            (Some(f), Some(l)) => f == l,
            (Some(_), None) => false,
        };
        let search_ok = match &self.config.search_term {
            None => true,
            Some(t) => find_ci(line, t.as_slice()),
        };
        let passes = level_ok && search_ok;
        if passes {
            self.stats.matched_lines = self.stats.matched_lines + 1;
        }
        let active = self.config.level_filter.is_some() || self.config.search_term.is_some();
        LineOutcome { emit: active && passes, level }
    }

    /// Assemble the summary: the total, the matched count only when a filter
    /// was active, and the nonzero level counts sorted by descending count
    /// (ties in priority order).
    pub fn summarize(&self) -> (s: Summary)
        ensures
            s.total_lines == self.stats.total_lines,
            s.matched_lines == if filters_active(self.config) {
                Some(self.stats.matched_lines)
            } else {
                None::<usize>
            },
            sorted_entries(s.entries@),
            forall|k: int|
                0 <= k < s.entries@.len() ==> (#[trigger] s.entries@[k]).1 as nat
                    == self.tally.spec_count(s.entries@[k].0) && s.entries@[k].1 > 0,
            forall|l: LogLevelFilter|
                self.tally.spec_count(l) > 0 ==> exists|k: int|
                    0 <= k < s.entries@.len() && (#[trigger] s.entries@[k]).0 == l,
            s.entries@.len() == 0 <==> self.tally.spec_total() == 0,
    {
        let active = self.config.level_filter.is_some() || self.config.search_term.is_some();
        Summary {
            total_lines: self.stats.total_lines,
            matched_lines: if active {
                Some(self.stats.matched_lines)
            } else {
                None
            },
            entries: self.tally.sorted_counts(),
        }
    }
}

/// Run the whole scan over `lines`: classify and tally every line, count the
/// matches, and collect the indices of the lines to echo, in input order.
pub fn analyze_lines(config: Config, lines: &Vec<Vec<u8>>) -> (r: AnalysisReport)
    ensures
        is_run_outcome(config, line_views(lines@), r.stats, r.tally),
        r.stats.matched_lines <= r.stats.total_lines,
        r.tally.spec_total() == classified_count(line_views(lines@)),
        r.tally.spec_total() <= r.stats.total_lines as nat,
        forall|k: int|
            0 <= k < r.echoed@.len() ==> #[trigger] r.echoed@[k] < lines@.len() && should_emit(
                config,
                lines@[r.echoed@[k] as int]@,
            ),
        forall|k1: int, k2: int|
            0 <= k1 < k2 < r.echoed@.len() ==> r.echoed@[k1] < r.echoed@[k2],
        forall|j: int|
            0 <= j < lines@.len() && should_emit(config, #[trigger] lines@[j]@) ==> exists|k: int|
                0 <= k < r.echoed@.len() && #[trigger] r.echoed@[k] == j,
        !filters_active(config) ==> r.echoed@.len() == 0,
{
    let mut analyzer = Analyzer::new(config);
    let mut echoed: Vec<usize> = Vec::new();
    let n = lines.len();
    let mut i: usize = 0;
    while i < n
        invariant
            n == lines@.len(),
            i <= n,
            analyzer.config == config,
            analyzer.wf(),
            analyzer.stats.total_lines == i,
            analyzer.stats.matched_lines == matched_count(
                config,
                line_views(lines@.subrange(0, i as int)),
            ),
            forall|l: LogLevelFilter| #[trigger]
                analyzer.tally.spec_count(l) == level_count(
                    line_views(lines@.subrange(0, i as int)),
                    l,
                ),
            forall|k: int|
                0 <= k < echoed@.len() ==> #[trigger] echoed@[k] < i && should_emit(
                    config,
                    lines@[echoed@[k] as int]@,
                ),
            forall|k1: int, k2: int|
                0 <= k1 < k2 < echoed@.len() ==> echoed@[k1] < echoed@[k2],
            forall|j: int|
                0 <= j < i && should_emit(config, #[trigger] lines@[j]@) ==> exists|k: int|
                    0 <= k < echoed@.len() && #[trigger] echoed@[k] == j,
            !filters_active(config) ==> echoed@.len() == 0,
        decreases n - i,
    {
        let ghost prev_echoed = echoed@;
        let outcome = analyzer.process_line(lines[i].as_slice());
        if outcome.emit {
            echoed.push(i);
        }
        i += 1;
        proof {
            let prev = line_views(lines@.subrange(0, i - 1));
            let cur = line_views(lines@.subrange(0, i as int));
            assert(cur.drop_last() =~= prev);
            assert(cur.last() == lines@[i - 1]@);
            assert forall|j: int| 0 <= j < i && should_emit(config, #[trigger] lines@[j]@) implies
                exists|k: int| 0 <= k < echoed@.len() && #[trigger] echoed@[k] == j by {
                if j < i - 1 {
                    let k = choose|k: int| 0 <= k < prev_echoed.len() && #[trigger] prev_echoed[k]
                        == j;
                    assert(echoed@[k] == j);
                } else {
                    assert(echoed@[prev_echoed.len() as int] == j);
                }
            }
        }
    }
    proof {
        assert(lines@.subrange(0, n as int) =~= lines@);
        lemma_level_count_sum(line_views(lines@));
        assert(analyzer.tally.spec_total() == analyzer.tally.spec_count(LogLevelFilter::Error)
            + analyzer.tally.spec_count(LogLevelFilter::Warn) + analyzer.tally.spec_count(
            LogLevelFilter::Info,
        ) + analyzer.tally.spec_count(LogLevelFilter::Debug) + analyzer.tally.spec_count(
            LogLevelFilter::Trace,
        ));
    }
    AnalysisReport { stats: analyzer.stats, tally: analyzer.tally, echoed }
}

/// No run matches more lines than it saw.
pub proof fn lemma_matched_le_total(cfg: Config, lines: Seq<Seq<u8>>)
    ensures
        matched_count(cfg, lines) <= lines.len(),
    decreases lines.len(),
{
    if lines.len() > 0 {
        lemma_matched_le_total(cfg, lines.drop_last());
    }
}

/// With no filter configured, every line matches and no line is echoed.
pub proof fn lemma_no_filters(cfg: Config, lines: Seq<Seq<u8>>)
    requires
        !filters_active(cfg),
    ensures
        matched_count(cfg, lines) == lines.len(),
        forall|i: int| 0 <= i < lines.len() ==> !should_emit(cfg, #[trigger] lines[i]),
    decreases lines.len(),
{
    if lines.len() > 0 {
        lemma_no_filters(cfg, lines.drop_last());
    }
}

/// The per-level counts add up to the number of lines that classified at all:
/// a line goes to exactly one level's tally, or to none.
pub proof fn lemma_level_count_sum(lines: Seq<Seq<u8>>)
    ensures
        level_count(lines, LogLevelFilter::Error) + level_count(lines, LogLevelFilter::Warn)
            + level_count(lines, LogLevelFilter::Info) + level_count(lines, LogLevelFilter::Debug)
            + level_count(lines, LogLevelFilter::Trace) == classified_count(lines),
    decreases lines.len(),
{
    if lines.len() > 0 {
        lemma_level_count_sum(lines.drop_last());
    }
}

/// At most one level is tallied per line, so the classified lines never
/// outnumber the lines.
pub proof fn lemma_classified_le_total(lines: Seq<Seq<u8>>)
    ensures
        classified_count(lines) <= lines.len(),
    decreases lines.len(),
{
    if lines.len() > 0 {
        lemma_classified_le_total(lines.drop_last());
    }
}

/// The analysis is deterministic: two runs over the same configuration and
/// the same lines yield identical statistics and identical tallies.
pub proof fn lemma_run_deterministic(
    cfg: Config,
    lines: Seq<Seq<u8>>,
    first_stats: RunStatistics,
    first_tally: TallyTable,
    second_stats: RunStatistics,
    second_tally: TallyTable,
)
    requires
        is_run_outcome(cfg, lines, first_stats, first_tally),
        is_run_outcome(cfg, lines, second_stats, second_tally),
    ensures
        first_stats == second_stats,
        first_tally == second_tally,
{
    assert(first_tally.spec_count(LogLevelFilter::Error) == second_tally.spec_count(
        LogLevelFilter::Error,
    ));
    assert(first_tally.spec_count(LogLevelFilter::Warn) == second_tally.spec_count(
        LogLevelFilter::Warn,
    ));
    assert(first_tally.spec_count(LogLevelFilter::Info) == second_tally.spec_count(
        LogLevelFilter::Info,
    ));
    assert(first_tally.spec_count(LogLevelFilter::Debug) == second_tally.spec_count(
        LogLevelFilter::Debug,
    ));
    assert(first_tally.spec_count(LogLevelFilter::Trace) == second_tally.spec_count(
        LogLevelFilter::Trace,
    ));
}

} // verus!
