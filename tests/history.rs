use etterna_stats::{
    acc_over_time, chronological_order, overall_column, skillsets_rows, timeline_input,
    validate_score, AccuracyField, DateTime, LoadError, ProgressCallback, RawScore, RawSkillsets,
    Score, ScoreFault, ScoreLocation, Skillsets8, SsrOverTime, Thresholds, Wifescore, XmlData,
    XmlStats,
};

fn bits(x: f32) -> u32 {
    x.to_bits()
}

fn full_block(overall: f32) -> RawSkillsets {
    RawSkillsets {
        overall: Some(bits(overall)),
        stream: Some(bits(1.0)),
        jumpstream: Some(bits(2.0)),
        handstream: Some(bits(3.0)),
        stamina: Some(bits(4.0)),
        jackspeed: Some(bits(5.0)),
        chordjack: Some(bits(6.0)),
        technical: Some(bits(7.0)),
    }
}

fn raw(datetime: &str, judged: f32, norm: f32, ssr: Option<RawSkillsets>) -> RawScore {
    RawScore {
        ssr,
        datetime: datetime.to_string(),
        wifescore: bits(judged),
        ssr_norm_percent: bits(norm),
    }
}

fn dt(year: i32, month: u32, day: u32, hour: u32, minute: u32, second: u32) -> DateTime {
    DateTime { year, month, day, hour, minute, second, nanosecond: 0 }
}

fn load(charts: Vec<Vec<Vec<RawScore>>>) -> XmlData {
    match XmlData::from_raw_charts(&charts) {
        Ok(x) => x,
        Err(e) => panic!("load failed: {:?}", e),
    }
}

#[test]
fn two_scores_scenario() {
    let history = load(vec![vec![vec![
        raw("2020-01-01 10:00:00", 0.95, 0.9996, Some(full_block(30.0))),
        raw("2020-01-02 10:00:00", 0.85, 0.80, None),
    ]]]);
    let scores = history.scores_chronologically();
    let scatter = SsrOverTime::from_scores(&scores);
    assert_eq!(scatter.aaaa_and_above, vec![(dt(2020, 1, 1, 10, 0, 0), bits(30.0))]);
    assert!(scatter.aaa.is_empty());
    assert!(scatter.aa.is_empty());
    assert!(scatter.a.is_empty());
    assert!(scatter.b_and_below.is_empty());
    let acc = acc_over_time(&scores);
    assert_eq!(
        acc,
        vec![(dt(2020, 1, 1, 10, 0, 0), bits(0.95)), (dt(2020, 1, 2, 10, 0, 0), bits(0.85))]
    );
    let input = timeline_input(&scores, None);
    assert_eq!(input.len(), 1);
    assert_eq!(input[0].0, dt(2020, 1, 1, 0, 0, 0));
    assert_eq!(input[0].1.stream, bits(1.0));
    assert_eq!(input[0].1.technical, bits(7.0));
}

#[test]
fn invalid_month_fails_load() {
    let r = XmlData::from_raw_charts(&vec![vec![vec![
        raw("2020-01-01 10:00:00", 0.9, 0.9, None),
        raw("2020-13-01 00:00:00", 0.9, 0.9, None),
    ]]]);
    match r {
        Err(LoadError::InvalidField { at, fault }) => {
            assert_eq!(at, ScoreLocation { chart: 0, scores_at: 0, score: 1 });
            assert_eq!(fault, ScoreFault::InvalidDateTime);
        }
        other => panic!("unexpected: {:?}", other),
    }
}

#[test]
fn judged_accuracy_above_one_fails_load() {
    let r = XmlData::from_raw_charts(&vec![
        vec![],
        vec![vec![], vec![raw("2020-01-01 10:00:00", 1.5, 0.9, None)]],
    ]);
    match r {
        Err(LoadError::InvalidField { at, fault }) => {
            assert_eq!(at, ScoreLocation { chart: 1, scores_at: 1, score: 0 });
            assert_eq!(
                fault,
                ScoreFault::InvalidWifescore { field: AccuracyField::WifeScore, bits: bits(1.5) }
            );
        }
        other => panic!("unexpected: {:?}", other),
    }
}

#[test]
fn normalized_accuracy_out_of_range_fails_load() {
    let r = validate_score(&raw("2020-01-01 10:00:00", 0.9, -0.25, None));
    assert_eq!(
        r,
        Err(ScoreFault::InvalidWifescore {
            field: AccuracyField::SsrNormPercent,
            bits: bits(-0.25)
        })
    );
    let nan = validate_score(&raw("2020-01-01 10:00:00", f32::NAN, 0.5, None));
    assert!(matches!(
        nan,
        Err(ScoreFault::InvalidWifescore { field: AccuracyField::WifeScore, .. })
    ));
}

#[test]
fn incomplete_skillset_block_fails() {
    let mut block = full_block(20.0);
    block.chordjack = None;
    let r = validate_score(&raw("2020-01-01 10:00:00", 0.9, 0.9, Some(block)));
    assert_eq!(r, Err(ScoreFault::IncompleteSkillsets));
}

#[test]
fn accuracy_bounds_are_inclusive() {
    let s = validate_score(&raw("2021-06-30 23:59:59", 1.0, 0.0, None)).unwrap();
    assert_eq!(s.wifescore_judged, Wifescore { bits: bits(1.0) });
    assert_eq!(s.wifescore_j4, Wifescore { bits: 0 });
    let z = validate_score(&raw("2021-06-30 23:59:59", -0.0, 0.5, None)).unwrap();
    assert_eq!(z.wifescore_judged, Wifescore { bits: 0 });
    assert_eq!(z.datetime, dt(2021, 6, 30, 23, 59, 59));
    assert_eq!(z.ssr, None);
}

#[test]
fn empty_history_gives_empty_series() {
    let history = load(vec![]);
    let scores = history.scores_chronologically();
    assert!(scores.is_empty());
    let scatter = SsrOverTime::from_scores(&scores);
    assert!(scatter.aaaa_and_above.is_empty() && scatter.b_and_below.is_empty());
    assert!(acc_over_time(&scores).is_empty());
    assert!(timeline_input(&scores, None).is_empty());
    let sparse = load(vec![vec![], vec![vec![]]]);
    assert!(sparse.all_scores().is_empty());
}

#[test]
fn chronological_order_is_sorted_and_stable() {
    let history = load(vec![
        vec![vec![
            raw("2020-03-01 12:00:00", 0.1, 0.1, None),
            raw("2020-01-01 12:00:00", 0.2, 0.2, None),
        ]],
        vec![
            vec![raw("2020-02-01 12:00:00", 0.3, 0.3, None)],
            vec![raw("2020-01-01 12:00:00", 0.4, 0.4, None)],
        ],
    ]);
    let all = history.all_scores();
    assert_eq!(chronological_order(&all), vec![1, 3, 2, 0]);
    let scores = history.scores_chronologically();
    let judged: Vec<u32> = scores.iter().map(|s| s.wifescore_judged.bits).collect();
    assert_eq!(judged, vec![bits(0.2), bits(0.4), bits(0.3), bits(0.1)]);
}

#[test]
fn buckets_partition_rated_scores() {
    let history = load(vec![vec![vec![
        raw("2020-01-05 00:00:00", 0.5, 0.99955, Some(full_block(25.0))),
        raw("2020-01-04 00:00:00", 0.5, 0.998, Some(full_block(24.0))),
        raw("2020-01-03 00:00:00", 0.5, 0.95, Some(full_block(23.0))),
        raw("2020-01-02 00:00:00", 0.5, 0.80, Some(full_block(22.0))),
        raw("2020-01-01 00:00:00", 0.5, 0.79, Some(full_block(21.0))),
        raw("2020-01-06 00:00:00", 0.5, 1.0, None),
        raw("2020-01-07 00:00:00", 0.5, 0.9996, Some(full_block(26.0))),
    ]]]);
    let scatter = SsrOverTime::from_scores(&history.scores_chronologically());
    assert_eq!(
        scatter.aaaa_and_above,
        vec![(dt(2020, 1, 5, 0, 0, 0), bits(25.0)), (dt(2020, 1, 7, 0, 0, 0), bits(26.0))]
    );
    assert_eq!(scatter.aaa, vec![(dt(2020, 1, 4, 0, 0, 0), bits(24.0))]);
    assert_eq!(scatter.aa, vec![(dt(2020, 1, 3, 0, 0, 0), bits(23.0))]);
    assert_eq!(scatter.a, vec![(dt(2020, 1, 2, 0, 0, 0), bits(22.0))]);
    assert_eq!(scatter.b_and_below, vec![(dt(2020, 1, 1, 0, 0, 0), bits(21.0))]);
}

#[test]
fn standard_thresholds_match_the_game() {
    let th = Thresholds::standard();
    assert_eq!(th.aaaa.bits, bits(0.99955));
    assert_eq!(th.aaa.bits, bits(0.997));
    assert_eq!(th.aa.bits, bits(0.93));
    assert_eq!(th.a.bits, bits(0.80));
}

#[test]
fn accuracy_series_has_one_point_per_score() {
    let history = load(vec![vec![
        vec![raw("2020-01-02 08:00:00", 0.7, 0.9, Some(full_block(10.0)))],
        vec![raw("2020-01-01 08:00:00", 0.6, 0.9, None)],
    ]]);
    let scores = history.scores_chronologically();
    let acc = acc_over_time(&scores);
    assert_eq!(acc.len(), scores.len());
    assert_eq!(
        acc,
        vec![(dt(2020, 1, 1, 8, 0, 0), bits(0.6)), (dt(2020, 1, 2, 8, 0, 0), bits(0.7))]
    );
}

#[test]
fn timeline_input_filters_by_threshold_and_drops_time_of_day() {
    let history = load(vec![vec![vec![
        raw("2020-05-01 18:30:15", 0.9, 0.998, Some(full_block(20.0))),
        raw("2020-05-01 09:00:00", 0.9, 0.95, Some(full_block(21.0))),
        raw("2020-05-02 09:00:00", 0.9, 0.9999, Some(full_block(22.0))),
        raw("2020-05-03 09:00:00", 0.9, 1.0, None),
    ]]]);
    let scores = history.scores_chronologically();
    let th = Thresholds::standard();
    let all: Vec<DateTime> = timeline_input(&scores, None).iter().map(|e| e.0).collect();
    assert_eq!(
        all,
        vec![dt(2020, 5, 1, 0, 0, 0), dt(2020, 5, 1, 0, 0, 0), dt(2020, 5, 2, 0, 0, 0)]
    );
    let aaa: Vec<DateTime> = timeline_input(&scores, Some(th.aaa)).iter().map(|e| e.0).collect();
    assert_eq!(aaa, vec![dt(2020, 5, 1, 0, 0, 0), dt(2020, 5, 2, 0, 0, 0)]);
    let aaaa: Vec<DateTime> = timeline_input(&scores, Some(th.aaaa)).iter().map(|e| e.0).collect();
    assert_eq!(aaaa, vec![dt(2020, 5, 2, 0, 0, 0)]);
}

#[test]
fn timeline_projections() {
    let s8 = Skillsets8 {
        overall: 8,
        stream: 1,
        jumpstream: 2,
        handstream: 3,
        stamina: 4,
        jackspeed: 5,
        chordjack: 6,
        technical: 7,
    };
    let changes = vec![(dt(2020, 1, 1, 0, 0, 0), s8)];
    let rows = skillsets_rows(&changes);
    assert_eq!(rows, vec![(dt(2020, 1, 1, 0, 0, 0), [8, 1, 2, 3, 4, 5, 6, 7])]);
    assert_eq!(overall_column(&changes), vec![(dt(2020, 1, 1, 0, 0, 0), 8)]);
    let stats = XmlStats {
        xml_path: "Etterna.xml".to_string(),
        ssr_over_time: SsrOverTime::from_scores(&Vec::new()),
        acc_over_time: Vec::new(),
        skillsets_over_time: rows,
    };
    assert_eq!(stats.overall_over_time(), vec![(dt(2020, 1, 1, 0, 0, 0), 8)]);
}

#[test]
fn deriving_twice_gives_identical_series() {
    let history = load(vec![vec![vec![
        raw("2020-01-02 10:00:00", 0.9, 0.99, Some(full_block(15.0))),
        raw("2020-01-01 10:00:00", 0.8, 0.999, Some(full_block(16.0))),
        raw("2020-01-01 10:00:00", 0.7, 0.5, Some(full_block(17.0))),
    ]]]);
    let a: Vec<Score> = history.scores_chronologically();
    let b: Vec<Score> = history.scores_chronologically();
    assert_eq!(a, b);
    assert_eq!(SsrOverTime::from_scores(&a).aa, SsrOverTime::from_scores(&b).aa);
    assert_eq!(acc_over_time(&a), acc_over_time(&b));
    assert_eq!(timeline_input(&a, None), timeline_input(&b, None));
}

#[test]
fn progress_warns_past_declared_total() {
    let mut p = ProgressCallback::new(2);
    let first = p.step();
    assert_eq!((first.index, first.out_of_bounds), (0, false));
    let second = p.step();
    assert_eq!((second.index, second.out_of_bounds), (1, false));
    let third = p.step();
    assert_eq!((third.index, third.out_of_bounds), (2, true));
    assert_eq!(p.current_progress, 3);
}
