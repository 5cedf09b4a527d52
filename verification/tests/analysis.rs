use log_analyzer::level::LogLevelFilter;
use log_analyzer::scan::{analyze_lines, Analyzer, Config};

fn lines_of(text: &str) -> Vec<Vec<u8>> {
    text.lines().map(|l| l.as_bytes().to_vec()).collect()
}

const SAMPLE: &str = "2024 ERROR disk full\n2024 INFO ok\n2024 error retry\n";

#[test]
fn scenario_no_filters() {
    let lines = lines_of(SAMPLE);
    let cfg = Config { level_filter: None, search_term: None };
    let report = analyze_lines(cfg, &lines);
    assert_eq!(report.stats.total_lines, 3);
    assert_eq!(report.stats.matched_lines, 3);
    assert_eq!(report.echoed, Vec::<usize>::new());
    assert_eq!(report.tally.count(LogLevelFilter::Error), 2);
    assert_eq!(report.tally.count(LogLevelFilter::Info), 1);
    assert_eq!(report.tally.count(LogLevelFilter::Warn), 0);
    assert_eq!(report.tally.count(LogLevelFilter::Debug), 0);
    assert_eq!(report.tally.count(LogLevelFilter::Trace), 0);
    assert_eq!(
        report.tally.sorted_counts(),
        vec![(LogLevelFilter::Error, 2), (LogLevelFilter::Info, 1)]
    );
}

#[test]
fn scenario_level_filter() {
    let lines = lines_of(SAMPLE);
    let cfg = Config { level_filter: Some(LogLevelFilter::Info), search_term: None };
    let report = analyze_lines(cfg, &lines);
    assert_eq!(report.stats.total_lines, 3);
    assert_eq!(report.stats.matched_lines, 1);
    assert_eq!(report.echoed, vec![1]);
    assert_eq!(report.tally.count(LogLevelFilter::Error), 2);
    assert_eq!(report.tally.count(LogLevelFilter::Info), 1);
}

#[test]
fn scenario_search_filter() {
    let lines = lines_of(SAMPLE);
    let cfg = Config { level_filter: None, search_term: Some(b"retry".to_vec()) };
    let report = analyze_lines(cfg, &lines);
    assert_eq!(report.stats.total_lines, 3);
    assert_eq!(report.stats.matched_lines, 1);
    assert_eq!(report.echoed, vec![2]);
}

#[test]
fn scenario_no_recognizable_levels() {
    let lines = lines_of("hello world\n");
    let cfg = Config { level_filter: None, search_term: None };
    let report = analyze_lines(cfg, &lines);
    assert_eq!(report.stats.total_lines, 1);
    assert!(report.tally.is_empty());
    assert_eq!(report.tally.sorted_counts(), Vec::new());
}

#[test]
fn running_twice_gives_identical_results() {
    let lines = lines_of(SAMPLE);
    let cfg_a = Config {
        level_filter: Some(LogLevelFilter::Error),
        search_term: Some(b"disk".to_vec()),
    };
    let cfg_b = Config {
        level_filter: Some(LogLevelFilter::Error),
        search_term: Some(b"disk".to_vec()),
    };
    let first = analyze_lines(cfg_a, &lines);
    let second = analyze_lines(cfg_b, &lines);
    assert_eq!(first.stats, second.stats);
    assert_eq!(first.tally, second.tally);
    assert_eq!(first.echoed, second.echoed);
}

#[test]
fn streaming_matches_batch() {
    let lines = lines_of(SAMPLE);
    let cfg = Config { level_filter: None, search_term: Some(b"RETRY".to_vec()) };
    let report = analyze_lines(cfg, &lines);
    let cfg = Config { level_filter: None, search_term: Some(b"RETRY".to_vec()) };
    let mut analyzer = Analyzer::new(cfg);
    let mut echoed: Vec<usize> = Vec::new();
    for (i, line) in lines.iter().enumerate() {
        let outcome = analyzer.process_line(line.as_slice());
        if outcome.emit {
            echoed.push(i);
        }
    }
    assert_eq!(analyzer.stats, report.stats);
    assert_eq!(analyzer.tally, report.tally);
    assert_eq!(echoed, report.echoed);
}

#[test]
fn empty_input() {
    let lines: Vec<Vec<u8>> = Vec::new();
    let cfg = Config { level_filter: None, search_term: None };
    let report = analyze_lines(cfg, &lines);
    assert_eq!(report.stats.total_lines, 0);
    assert_eq!(report.stats.matched_lines, 0);
    assert!(report.tally.is_empty());
    assert_eq!(report.echoed, Vec::<usize>::new());
}

#[test]
fn level_filter_excludes_unclassified_lines() {
    let lines = lines_of("hello world\nERROR boom\n");
    let cfg = Config { level_filter: Some(LogLevelFilter::Error), search_term: None };
    let report = analyze_lines(cfg, &lines);
    assert_eq!(report.stats.matched_lines, 1);
    assert_eq!(report.echoed, vec![1]);
}

#[test]
fn search_is_case_insensitive() {
    let lines = lines_of("one Retry here\nnothing\n");
    let cfg = Config { level_filter: None, search_term: Some(b"RETRY".to_vec()) };
    let report = analyze_lines(cfg, &lines);
    assert_eq!(report.stats.matched_lines, 1);
    assert_eq!(report.echoed, vec![0]);
}

#[test]
fn both_filters_must_pass() {
    let lines = lines_of("ERROR disk\nERROR net\nINFO disk\n");
    let cfg = Config {
        level_filter: Some(LogLevelFilter::Error),
        search_term: Some(b"disk".to_vec()),
    };
    let report = analyze_lines(cfg, &lines);
    assert_eq!(report.stats.matched_lines, 1);
    assert_eq!(report.echoed, vec![0]);
    assert_eq!(report.tally.count(LogLevelFilter::Error), 2);
    assert_eq!(report.tally.count(LogLevelFilter::Info), 1);
}

#[test]
fn tally_counts_all_lines_regardless_of_filters() {
    let lines = lines_of("WARN a\nDEBUG b\nTRACE c\nWARN d\n");
    let cfg = Config { level_filter: Some(LogLevelFilter::Trace), search_term: None };
    let report = analyze_lines(cfg, &lines);
    assert_eq!(report.tally.count(LogLevelFilter::Warn), 2);
    assert_eq!(report.tally.count(LogLevelFilter::Debug), 1);
    assert_eq!(report.tally.count(LogLevelFilter::Trace), 1);
    assert_eq!(report.stats.matched_lines, 1);
    assert_eq!(report.echoed, vec![2]);
}
