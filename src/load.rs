use crate::datetime::{parse_datetime_text, parsed_datetime};
use crate::savegame::{Chart, PlayerScores, Score, ScoresAt, Skillsets8, XmlData};
use crate::wifescore::Wifescore;
use vstd::prelude::*;

verus! {

/// A skillset block as it stands in the file: each of the eight ratings may be
/// missing. Ratings are bit patterns of single-precision numbers.
#[derive(Clone, Copy, Debug, PartialEq, Eq, Structural)]
pub struct RawSkillsets {
    pub overall: Option<u32>,
    pub stream: Option<u32>,
    pub jumpstream: Option<u32>,
    pub handstream: Option<u32>,
    pub stamina: Option<u32>,
    pub jackspeed: Option<u32>,
    pub chordjack: Option<u32>,
    pub technical: Option<u32>,
}

/// A score element as it stands in the file, before its fields are validated.
/// Accuracies are bit patterns of single-precision numbers.
#[derive(Clone, Debug)]
pub struct RawScore {
    pub ssr: Option<RawSkillsets>,
    pub datetime: String,
    pub wifescore: u32,
    pub ssr_norm_percent: u32,
}

/// Which of a score's two accuracies a fault is about.
#[derive(Clone, Copy, Debug, PartialEq, Eq, Structural)]
pub enum AccuracyField {
    /// The `WifeScore` field: the judged accuracy.
    WifeScore,
    /// The `SSRNormPercent` field: the normalized accuracy.
    SsrNormPercent,
}

/// What is wrong with a score element.
#[derive(Clone, Copy, Debug, PartialEq, Eq, Structural)]
pub enum ScoreFault {
    /// The skillset block is present but lacks some of its eight ratings.
    IncompleteSkillsets,
    /// The timestamp does not read as `YYYY-MM-DD HH:MM:SS`.
    InvalidDateTime,
    /// An accuracy lies outside [0.0, 1.0] or is not a number; `bits` is its
    /// bit pattern.
    InvalidWifescore { field: AccuracyField, bits: u32 },
}

/// Where a score element stands: its chart, its group within the chart, and
/// its place within the group, each counted from zero.
#[derive(Clone, Copy, Debug, PartialEq, Eq, Structural)]
pub struct ScoreLocation {
    pub chart: usize,
    pub scores_at: usize,
    pub score: usize,
}

/// Why a save file could not be loaded.
#[derive(Clone, Debug)]
pub enum LoadError {
    /// The file could not be read.
    Io(String),
    /// The file is not a well-formed save file.
    Structure(String),
    /// A score's field is invalid.
    InvalidField { at: ScoreLocation, fault: ScoreFault },
}

impl RawSkillsets {
    pub open spec fn spec_complete(self) -> Option<Skillsets8> {
        match (
            self.overall,
            self.stream,
            self.jumpstream,
            self.handstream,
            self.stamina,
            self.jackspeed,
            self.chordjack,
            self.technical,
        ) {
            (Some(o), Some(s), Some(js), Some(hs), Some(st), Some(jk), Some(cj), Some(t)) => Some(
                Skillsets8 {
                    overall: o,
                    stream: s,
                    jumpstream: js,
                    handstream: hs,
                    stamina: st,
                    jackspeed: jk,
                    chordjack: cj,
                    technical: t,
                },
            ),
            _ => None,
        }
    }

    /// The block's ratings if all eight are present.
    pub fn complete(&self) -> (r: Option<Skillsets8>)
        ensures
            r == self.spec_complete(),
    {
        match (
            self.overall,
            self.stream,
            self.jumpstream,
            self.handstream,
            self.stamina,
            self.jackspeed,
            self.chordjack,
            self.technical,
        ) {
            (Some(o), Some(s), Some(js), Some(hs), Some(st), Some(jk), Some(cj), Some(t)) => Some(
                Skillsets8 {
                    overall: o,
                    stream: s,
                    jumpstream: js,
                    handstream: hs,
                    stamina: st,
                    jackspeed: jk,
                    chordjack: cj,
                    technical: t,
                },
            ),
            _ => None,
        }
    }
}

/// The validated form of an accuracy field: the accuracy if it lies in
/// [0.0, 1.0] (-0.0 read as 0.0).
pub open spec fn spec_accuracy(bits: u32) -> Option<Wifescore> {
    if bits <= crate::wifescore::ONE_BITS {
        Some(Wifescore { bits })
    } else if bits == crate::wifescore::NEGATIVE_ZERO_BITS {
        Some(Wifescore { bits: 0 })
    } else {
        None
    }
}

/// The validated score of a score element, or its first fault. The fields are
/// checked in this order: skillset block, timestamp, judged accuracy,
/// normalized accuracy.
pub open spec fn spec_validate_score(raw: RawScore) -> Result<Score, ScoreFault> {
    if raw.ssr is Some && raw.ssr->0.spec_complete() is None {
        Err(ScoreFault::IncompleteSkillsets)
    } else if parsed_datetime(raw.datetime@) is None {
        Err(ScoreFault::InvalidDateTime)
    } else if spec_accuracy(raw.wifescore) is None {
        Err(ScoreFault::InvalidWifescore { field: AccuracyField::WifeScore, bits: raw.wifescore })
    } else if spec_accuracy(raw.ssr_norm_percent) is None {
        Err(
            ScoreFault::InvalidWifescore {
                field: AccuracyField::SsrNormPercent,
                bits: raw.ssr_norm_percent,
            },
        )
    } else {
        Ok(
            Score {
                ssr: match raw.ssr {
                    Some(b) => b.spec_complete(),
                    None => None,
                },
                datetime: parsed_datetime(raw.datetime@)->0,
                wifescore_judged: spec_accuracy(raw.wifescore)->0,
                wifescore_j4: spec_accuracy(raw.ssr_norm_percent)->0,
            },
        )
    }
}

/// Validates one score element.
pub fn validate_score(raw: &RawScore) -> (r: Result<Score, ScoreFault>)
    ensures
        r == spec_validate_score(*raw),
        r matches Ok(s) ==> s.wf(),
{
    let ssr = match &raw.ssr {
        Some(block) => match block.complete() {
            Some(full) => Some(full),
            None => {
                return Err(ScoreFault::IncompleteSkillsets);
            },
        },
        None => None,
    };
    let datetime = match parse_datetime_text(raw.datetime.as_str()) {
        Some(d) => d,
        None => {
            return Err(ScoreFault::InvalidDateTime);
        },
    };
    let wifescore_judged = match Wifescore::from_proportion_bits(raw.wifescore) {
        Some(w) => w,
        None => {
            return Err(
                ScoreFault::InvalidWifescore { field: AccuracyField::WifeScore, bits: raw.wifescore },
            );
        },
    };
    let wifescore_j4 = match Wifescore::from_proportion_bits(raw.ssr_norm_percent) {
        Some(w) => w,
        None => {
            return Err(
                ScoreFault::InvalidWifescore {
                    field: AccuracyField::SsrNormPercent,
                    bits: raw.ssr_norm_percent,
                },
            );
        },
    };
    Ok(Score { ssr, datetime, wifescore_judged, wifescore_j4 })
}

/// Every score element of a group is valid.
pub open spec fn group_valid(raw: Seq<RawScore>) -> bool {
    forall|k: int| 0 <= k < raw.len() ==> (#[trigger] spec_validate_score(raw[k])) is Ok
}

/// Every score element of a chart is valid.
pub open spec fn chart_valid(raw: Seq<Vec<RawScore>>) -> bool {
    forall|a: int| 0 <= a < raw.len() ==> group_valid(#[trigger] raw[a]@)
}

/// Every score element of every chart is valid.
pub open spec fn charts_valid(raw: Seq<Vec<Vec<RawScore>>>) -> bool {
    forall|c: int| 0 <= c < raw.len() ==> chart_valid(#[trigger] raw[c]@)
}

/// `g` holds the validated scores of the group `raw`, in the same order.
pub open spec fn group_matches(raw: Seq<RawScore>, g: ScoresAt) -> bool {
    &&& g.scores.len() == raw.len()
    &&& forall|k: int|
        0 <= k < raw.len() ==> spec_validate_score(#[trigger] raw[k]) == Ok::<Score, ScoreFault>(
            g.scores@[k],
        )
}

/// `ch` holds the validated groups of the chart `raw`, in the same order.
pub open spec fn chart_matches(raw: Seq<Vec<RawScore>>, ch: Chart) -> bool {
    &&& ch.scores_at.len() == raw.len()
    &&& forall|a: int| 0 <= a < raw.len() ==> group_matches(#[trigger] raw[a]@, ch.scores_at@[a])
}

/// `x` holds the validated charts of `raw`, in the same order.
pub open spec fn history_matches(raw: Seq<Vec<Vec<RawScore>>>, x: XmlData) -> bool {
    &&& x.player_scores.charts.len() == raw.len()
    &&& forall|c: int|
        0 <= c < raw.len() ==> chart_matches(#[trigger] raw[c]@, x.player_scores.charts@[c])
}

/// The score element at `at` is the first invalid one in file order, and
/// `fault` is its first fault.
pub open spec fn first_fault_at(
    raw: Seq<Vec<Vec<RawScore>>>,
    at: ScoreLocation,
    fault: ScoreFault,
) -> bool {
    &&& at.chart < raw.len()
    &&& at.scores_at < raw[at.chart as int].len()
    &&& at.score < raw[at.chart as int]@[at.scores_at as int].len()
    &&& spec_validate_score(raw[at.chart as int]@[at.scores_at as int]@[at.score as int]) == Err::<
        Score,
        ScoreFault,
    >(fault)
    &&& charts_valid(raw.take(at.chart as int))
    &&& chart_valid(raw[at.chart as int]@.take(at.scores_at as int))
    &&& group_valid(raw[at.chart as int]@[at.scores_at as int]@.take(at.score as int))
}

impl XmlData {
    /// Builds a score history from the score elements of a save file, given as
    /// charts of groups of scores. Fails at the first invalid score element in
    /// file order; otherwise every score is kept, in place.
    pub fn from_raw_charts(raw: &Vec<Vec<Vec<RawScore>>>) -> (r: Result<XmlData, LoadError>)
        ensures
            r is Ok <==> charts_valid(raw@),
            r matches Ok(x) ==> history_matches(raw@, x),
            r matches Err(e) ==> (e matches LoadError::InvalidField { at, fault } && first_fault_at(
                raw@,
                at,
                fault,
            )),
    {
        let mut charts: Vec<Chart> = Vec::new();
        let mut c: usize = 0;
        while c < raw.len()
            invariant
                c <= raw.len(),
                charts.len() == c,
                charts_valid(raw@.take(c as int)),
                forall|c2: int| 0 <= c2 < c ==> chart_matches(#[trigger] raw@[c2]@, charts@[c2]),
            decreases raw.len() - c,
        {
            let chart_raw = &raw[c];
            let mut groups: Vec<ScoresAt> = Vec::new();
            let mut a: usize = 0;
            while a < chart_raw.len()
                invariant
                    c < raw.len(),
                    chart_raw == &raw@[c as int],
                    charts_valid(raw@.take(c as int)),
                    charts.len() == c,
                    forall|c2: int| 0 <= c2 < c ==> chart_matches(#[trigger] raw@[c2]@, charts@[c2]),
                    a <= chart_raw.len(),
                    groups.len() == a,
                    chart_valid(chart_raw@.take(a as int)),
                    forall|a2: int|
                        0 <= a2 < a ==> group_matches(#[trigger] chart_raw@[a2]@, groups@[a2]),
                decreases chart_raw.len() - a,
            {
                let group_raw = &chart_raw[a];
                let mut scores: Vec<Score> = Vec::new();
                let mut k: usize = 0;
                while k < group_raw.len()
                    invariant
                        c < raw.len(),
                        chart_raw == &raw@[c as int],
                        charts_valid(raw@.take(c as int)),
                        a < chart_raw.len(),
                        group_raw == &chart_raw@[a as int],
                        chart_valid(chart_raw@.take(a as int)),
                        k <= group_raw.len(),
                        scores.len() == k,
                        group_valid(group_raw@.take(k as int)),
                        forall|k2: int|
                            0 <= k2 < k ==> spec_validate_score(#[trigger] group_raw@[k2]) == Ok::<
                                Score,
                                ScoreFault,
                            >(scores@[k2]),
                    decreases group_raw.len() - k,
                {
                    match validate_score(&group_raw[k]) {
                        Ok(s) => {
                            scores.push(s);
                        },
                        Err(fault) => {
                            let at = ScoreLocation { chart: c, scores_at: a, score: k };
                            proof {
                                assert(!group_valid(raw@[c as int]@[a as int]@));
                                assert(!chart_valid(raw@[c as int]@));
                            }
                            return Err(LoadError::InvalidField { at, fault });
                        },
                    }
                    proof {
                        assert forall|k2: int| 0 <= k2 < k + 1 implies (#[trigger] spec_validate_score(
                            group_raw@.take(k + 1)[k2],
                        )) is Ok by {
                            if k2 < k {
                                assert(group_raw@.take(k as int)[k2] == group_raw@[k2]);
                            }
                        }
                    }
                    k = k + 1;
                }
                proof {
                    assert(group_raw@.take(k as int) == group_raw@);
                    assert forall|a2: int| 0 <= a2 < a + 1 implies group_valid(
                        #[trigger] chart_raw@.take(a + 1)[a2]@,
                    ) by {
                        if a2 < a {
                            assert(chart_raw@.take(a as int)[a2] == chart_raw@[a2]);
                        }
                    }
                }
                groups.push(ScoresAt { scores });
                a = a + 1;
            }
            proof {
                assert(chart_raw@.take(a as int) == chart_raw@);
                assert forall|c2: int| 0 <= c2 < c + 1 implies chart_valid(
                    #[trigger] raw@.take(c + 1)[c2]@,
                ) by {
                    if c2 < c {
                        assert(raw@.take(c as int)[c2] == raw@[c2]);
                    }
                }
            }
            charts.push(Chart { scores_at: groups });
            c = c + 1;
        }
        proof {
            assert(raw@.take(c as int) == raw@);
        }
        Ok(XmlData { player_scores: PlayerScores { charts } })
    }
}

} // verus!
