use crate::datetime::DateTime;
use crate::savegame::{
    is_chronological_scores, lemma_chronological_scores_unique, Score, Skillsets7, Skillsets8, XmlData,
};
use crate::wifescore::{Grade, Thresholds, Wifescore};
use vstd::prelude::*;

verus! {

/// The point that a rated score contributes to the rating scatter: its time
/// and its overall rating.
pub open spec fn scatter_point(s: Score) -> (DateTime, u32) {
    (s.datetime, s.ssr->0.overall)
}

/// The points of the rated scores of `scores` whose normalized accuracy falls
/// in bucket `g`, in the order of `scores`.
pub open spec fn bucket_entries(scores: Seq<Score>, th: Thresholds, g: Grade) -> Seq<
    (DateTime, u32),
>
    decreases scores.len(),
{
    if scores.len() == 0 {
        Seq::empty()
    } else {
        let prev = bucket_entries(scores.drop_last(), th, g);
        let s = scores.last();
        if s.ssr is Some && th.spec_grade(s.wifescore_j4) == g {
            prev.push(scatter_point(s))
        } else {
            prev
        }
    }
}

/// The scores of `scores` that carry skillset ratings, in order.
pub open spec fn rated_scores(scores: Seq<Score>) -> Seq<Score>
    decreases scores.len(),
{
    if scores.len() == 0 {
        Seq::empty()
    } else if scores.last().ssr is Some {
        rated_scores(scores.drop_last()).push(scores.last())
    } else {
        rated_scores(scores.drop_last())
    }
}

/// The rating scatter, one list per grade bucket.
#[derive(Clone, Debug)]
pub struct SsrOverTime {
    pub aaaa_and_above: Vec<(DateTime, u32)>,
    pub aaa: Vec<(DateTime, u32)>,
    pub aa: Vec<(DateTime, u32)>,
    pub a: Vec<(DateTime, u32)>,
    pub b_and_below: Vec<(DateTime, u32)>,
}

impl SsrOverTime {
    /// Whether each bucket holds exactly the points of its grade, taken from
    /// `scores` in order, under the thresholds `th`.
    pub open spec fn buckets_of(self, scores: Seq<Score>, th: Thresholds) -> bool {
        &&& self.aaaa_and_above@ == bucket_entries(scores, th, Grade::AaaaAndAbove)
        &&& self.aaa@ == bucket_entries(scores, th, Grade::Aaa)
        &&& self.aa@ == bucket_entries(scores, th, Grade::Aa)
        &&& self.a@ == bucket_entries(scores, th, Grade::A)
        &&& self.b_and_below@ == bucket_entries(scores, th, Grade::BAndBelow)
    }

    /// Sorts the rated scores into the five grade buckets by normalized
    /// accuracy under the game's thresholds, keeping the order of `scores`.
    pub fn from_scores(scores: &Vec<Score>) -> (r: SsrOverTime)
        ensures
            r.buckets_of(scores@, Thresholds::spec_standard()),
            r.aaaa_and_above.len() + r.aaa.len() + r.aa.len() + r.a.len() + r.b_and_below.len()
                == rated_scores(scores@).len(),
    {
        let th = Thresholds::standard();
        let mut r = SsrOverTime {
            aaaa_and_above: Vec::new(),
            aaa: Vec::new(),
            aa: Vec::new(),
            a: Vec::new(),
            b_and_below: Vec::new(),
        };
        let mut i: usize = 0;
        while i < scores.len()
            invariant
                i <= scores.len(),
                th == Thresholds::spec_standard(),
                r.buckets_of(scores@.take(i as int), th),
            decreases scores.len() - i,
        {
            let s = &scores[i];
            proof {
                assert(scores@.take(i + 1).drop_last() == scores@.take(i as int));
            }
            if let Some(ssr) = &s.ssr {
                let entry = (s.datetime, ssr.overall);
                match th.grade(&s.wifescore_j4) {
                    Grade::AaaaAndAbove => r.aaaa_and_above.push(entry),
                    Grade::Aaa => r.aaa.push(entry),
                    Grade::Aa => r.aa.push(entry),
                    Grade::A => r.a.push(entry),
                    Grade::BAndBelow => r.b_and_below.push(entry),
                }
            }
            i = i + 1;
        }
        proof {
            assert(scores@.take(i as int) == scores@);
            lemma_buckets_partition(scores@, th);
        }
        r
    }
}

/// The grade buckets partition the rated scores: together the five buckets
/// hold one point for each rated score, and a score goes to the top bucket
/// exactly when its normalized accuracy reaches the top threshold, and to the
/// bottom bucket exactly when it stays below every threshold.
pub proof fn lemma_buckets_partition(scores: Seq<Score>, th: Thresholds)
    requires
        th.a.bits <= th.aa.bits <= th.aaa.bits <= th.aaaa.bits,
    ensures
        bucket_entries(scores, th, Grade::AaaaAndAbove).len() + bucket_entries(
            scores,
            th,
            Grade::Aaa,
        ).len() + bucket_entries(scores, th, Grade::Aa).len() + bucket_entries(
            scores,
            th,
            Grade::A,
        ).len() + bucket_entries(scores, th, Grade::BAndBelow).len() == rated_scores(scores).len(),
        forall|w: Wifescore|
            #![trigger th.spec_grade(w)]
            (th.spec_grade(w) == Grade::AaaaAndAbove) == (w.bits >= th.aaaa.bits),
        forall|w: Wifescore|
            #![trigger th.spec_grade(w)]
            (th.spec_grade(w) == Grade::BAndBelow) == (w.bits < th.a.bits),
    decreases scores.len(),
{
    if scores.len() > 0 {
        lemma_buckets_partition(scores.drop_last(), th);
    }
}

/// The accuracy series point of a score: its time and its judged accuracy.
pub open spec fn accuracy_point(s: Score) -> (DateTime, u32) {
    (s.datetime, s.wifescore_judged.bits)
}

/// One point per score, in the order of `scores`: its time and the bit pattern
/// of its judged accuracy.
pub fn acc_over_time(scores: &Vec<Score>) -> (r: Vec<(DateTime, u32)>)
    ensures
        r@ == scores@.map_values(|s: Score| accuracy_point(s)),
{
    let mut r: Vec<(DateTime, u32)> = Vec::new();
    let mut i: usize = 0;
    while i < scores.len()
        invariant
            i <= scores.len(),
            r@ == scores@.take(i as int).map_values(|s: Score| accuracy_point(s)),
        decreases scores.len() - i,
    {
        let s = &scores[i];
        r.push((s.datetime, s.wifescore_judged.as_proportion_bits()));
        i = i + 1;
        proof {
            assert(scores@.take(i as int).map_values(|s: Score| accuracy_point(s)) == scores@.take(
                i - 1,
            ).map_values(|s: Score| accuracy_point(s)).push(accuracy_point(scores@[i - 1])));
        }
    }
    proof {
        assert(scores@.take(i as int) == scores@);
    }
    r
}

/// Whether a score enters a rating timeline: it is rated, and its normalized
/// accuracy reaches `threshold` where there is one.
pub open spec fn enters_timeline(s: Score, threshold: Option<Wifescore>) -> bool {
    s.ssr is Some && (threshold matches Some(t) ==> s.wifescore_j4.bits >= t.bits)
}

/// The input of a rating timeline: for each score that enters it, in order,
/// the midnight of its day and its seven skillset ratings.
pub open spec fn timeline_entries(scores: Seq<Score>, threshold: Option<Wifescore>) -> Seq<
    (DateTime, Skillsets7),
>
    decreases scores.len(),
{
    if scores.len() == 0 {
        Seq::empty()
    } else {
        let prev = timeline_entries(scores.drop_last(), threshold);
        let s = scores.last();
        if enters_timeline(s, threshold) {
            prev.push((s.datetime.spec_midnight(), s.ssr->0.spec_to_skillsets7()))
        } else {
            prev
        }
    }
}

/// The dated skillset ratings that a rating timeline is computed from: the
/// rated scores whose normalized accuracy reaches `threshold` (all rated
/// scores where there is none), each at the midnight of its day, in the order
/// of `scores`.
pub fn timeline_input(scores: &Vec<Score>, threshold: Option<Wifescore>) -> (r: Vec<
    (DateTime, Skillsets7),
>)
    ensures
        r@ == timeline_entries(scores@, threshold),
{
    let mut r: Vec<(DateTime, Skillsets7)> = Vec::new();
    let mut i: usize = 0;
    while i < scores.len()
        invariant
            i <= scores.len(),
            r@ == timeline_entries(scores@.take(i as int), threshold),
        decreases scores.len() - i,
    {
        let s = &scores[i];
        proof {
            assert(scores@.take(i + 1).drop_last() == scores@.take(i as int));
        }
        if let Some(ssr) = &s.ssr {
            let reaches = match &threshold {
                Some(t) => s.wifescore_j4.at_least(t),
                None => true,
            };
            if reaches {
                r.push((s.datetime.midnight(), ssr.to_skillsets7()));
            }
        }
        i = i + 1;
    }
    proof {
        assert(scores@.take(i as int) == scores@);
    }
    r
}

/// The eight ratings of each timeline entry, overall first.
pub fn skillsets_rows(changes: &Vec<(DateTime, Skillsets8)>) -> (r: Vec<(DateTime, [u32; 8])>)
    ensures
        r@ == changes@.map_values(|e: (DateTime, Skillsets8)| (e.0, e.1.spec_to_array())),
{
    let mut r: Vec<(DateTime, [u32; 8])> = Vec::new();
    let mut i: usize = 0;
    while i < changes.len()
        invariant
            i <= changes.len(),
            r@ == changes@.take(i as int).map_values(
                |e: (DateTime, Skillsets8)| (e.0, e.1.spec_to_array()),
            ),
        decreases changes.len() - i,
    {
        let e = &changes[i];
        r.push((e.0, e.1.to_array()));
        i = i + 1;
        proof {
            assert(changes@.take(i as int).map_values(
                |e: (DateTime, Skillsets8)| (e.0, e.1.spec_to_array()),
            ) == changes@.take(i - 1).map_values(
                |e: (DateTime, Skillsets8)| (e.0, e.1.spec_to_array()),
            ).push((changes@[i - 1].0, changes@[i - 1].1.spec_to_array())));
        }
    }
    proof {
        assert(changes@.take(i as int) == changes@);
    }
    r
}

/// The overall rating of each timeline entry.
pub fn overall_column(changes: &Vec<(DateTime, Skillsets8)>) -> (r: Vec<(DateTime, u32)>)
    ensures
        r@ == changes@.map_values(|e: (DateTime, Skillsets8)| (e.0, e.1.overall)),
{
    let mut r: Vec<(DateTime, u32)> = Vec::new();
    let mut i: usize = 0;
    while i < changes.len()
        invariant
            i <= changes.len(),
            r@ == changes@.take(i as int).map_values(|e: (DateTime, Skillsets8)| (e.0, e.1.overall)),
        decreases changes.len() - i,
    {
        let e = &changes[i];
        r.push((e.0, e.1.overall));
        i = i + 1;
        proof {
            assert(changes@.take(i as int).map_values(
                |e: (DateTime, Skillsets8)| (e.0, e.1.overall),
            ) == changes@.take(i - 1).map_values(|e: (DateTime, Skillsets8)| (e.0, e.1.overall)).push(
                (changes@[i - 1].0, changes@[i - 1].1.overall),
            ));
        }
    }
    proof {
        assert(changes@.take(i as int) == changes@);
    }
    r
}

/// The statistics of a save file: the rating scatter, the accuracy series and
/// the rating timeline with all eight ratings.
#[derive(Clone, Debug)]
pub struct XmlStats {
    pub xml_path: String,
    pub ssr_over_time: SsrOverTime,
    pub acc_over_time: Vec<(DateTime, u32)>,
    pub skillsets_over_time: Vec<(DateTime, [u32; 8])>,
}

impl XmlStats {
    /// The overall rating of each entry of the rating timeline.
    pub fn overall_over_time(&self) -> (r: Vec<(DateTime, u32)>)
        ensures
            r@ == self.skillsets_over_time@.map_values(|e: (DateTime, [u32; 8])| (e.0, e.1[0])),
    {
        let rows = &self.skillsets_over_time;
        let mut r: Vec<(DateTime, u32)> = Vec::new();
        let mut i: usize = 0;
        while i < rows.len()
            invariant
                rows == &self.skillsets_over_time,
                i <= rows.len(),
                r@ == rows@.take(i as int).map_values(|e: (DateTime, [u32; 8])| (e.0, e.1[0])),
            decreases rows.len() - i,
        {
            let e = &rows[i];
            r.push((e.0, e.1[0]));
            i = i + 1;
            proof {
                assert(rows@.take(i as int).map_values(|e: (DateTime, [u32; 8])| (e.0, e.1[0]))
                    == rows@.take(i - 1).map_values(|e: (DateTime, [u32; 8])| (e.0, e.1[0])).push(
                    (rows@[i - 1].0, rows@[i - 1].1[0]),
                ));
            }
        }
        proof {
            assert(rows@.take(i as int) == rows@);
        }
        r
    }
}

/// Three overall-rating timelines: over all rated scores, over those that
/// reach the AAA threshold, and over those that reach the AAAA threshold.
#[derive(Clone, Debug)]
pub struct AccRatingOverTime {
    pub normal: Vec<(DateTime, u32)>,
    pub aaa: Vec<(DateTime, u32)>,
    pub aaaa: Vec<(DateTime, u32)>,
}

/// Deriving the series twice from one unchanged history gives identical
/// results: the chronological scores are the same, and so are the rating
/// scatter, the accuracy series and the input of every rating timeline.
pub proof fn lemma_series_deterministic(x: XmlData, r1: Seq<Score>, r2: Seq<Score>)
    requires
        is_chronological_scores(x.spec_scores(), r1),
        is_chronological_scores(x.spec_scores(), r2),
    ensures
        r1 == r2,
        forall|th: Thresholds, g: Grade|
            #![trigger bucket_entries(r1, th, g)]
            bucket_entries(r1, th, g) == bucket_entries(r2, th, g),
        r1.map_values(|s: Score| accuracy_point(s)) == r2.map_values(|s: Score| accuracy_point(s)),
        forall|t: Option<Wifescore>|
            #![trigger timeline_entries(r1, t)]
            timeline_entries(r1, t) == timeline_entries(r2, t),
{
    lemma_chronological_scores_unique(x.spec_scores(), r1, r2);
}

} // verus!
