use crate::datetime::{lemma_lt_total, lemma_lt_transitive, DateTime};
use crate::wifescore::Wifescore;
use vstd::prelude::*;

verus! {

/// The seven skillset ratings of a score, each the bit pattern of a
/// single-precision number.
#[derive(Clone, Copy, Debug, PartialEq, Eq, Structural)]
pub struct Skillsets7 {
    pub stream: u32,
    pub jumpstream: u32,
    pub handstream: u32,
    pub stamina: u32,
    pub jackspeed: u32,
    pub chordjack: u32,
    pub technical: u32,
}

/// The overall rating and the seven skillset ratings of a score, each the bit
/// pattern of a single-precision number.
#[derive(Clone, Copy, Debug, PartialEq, Eq, Structural)]
pub struct Skillsets8 {
    pub overall: u32,
    pub stream: u32,
    pub jumpstream: u32,
    pub handstream: u32,
    pub stamina: u32,
    pub jackspeed: u32,
    pub chordjack: u32,
    pub technical: u32,
}

impl Skillsets8 {
    pub open spec fn spec_to_skillsets7(self) -> Skillsets7 {
        Skillsets7 {
            stream: self.stream,
            jumpstream: self.jumpstream,
            handstream: self.handstream,
            stamina: self.stamina,
            jackspeed: self.jackspeed,
            chordjack: self.chordjack,
            technical: self.technical,
        }
    }

    /// The seven skillsets without the overall rating.
    pub fn to_skillsets7(&self) -> (r: Skillsets7)
        ensures
            r == self.spec_to_skillsets7(),
    {
        Skillsets7 {
            stream: self.stream,
            jumpstream: self.jumpstream,
            handstream: self.handstream,
            stamina: self.stamina,
            jackspeed: self.jackspeed,
            chordjack: self.chordjack,
            technical: self.technical,
        }
    }

    pub open spec fn spec_to_array(self) -> [u32; 8] {
        [
            self.overall,
            self.stream,
            self.jumpstream,
            self.handstream,
            self.stamina,
            self.jackspeed,
            self.chordjack,
            self.technical,
        ]
    }

    /// All eight ratings, overall first, then the skillsets in declaration order.
    pub fn to_array(&self) -> (r: [u32; 8])
        ensures
            r == self.spec_to_array(),
    {
        [
            self.overall,
            self.stream,
            self.jumpstream,
            self.handstream,
            self.stamina,
            self.jackspeed,
            self.chordjack,
            self.technical,
        ]
    }
}

/// One play result.
#[derive(Clone, Copy, Debug, PartialEq, Eq, Structural)]
pub struct Score {
    /// The skillset ratings, absent for scores that were saved without them.
    pub ssr: Option<Skillsets8>,
    pub datetime: DateTime,
    /// The accuracy under the judge the score was played on.
    pub wifescore_judged: Wifescore,
    /// The accuracy normalized to the reference judge, used for grading.
    pub wifescore_j4: Wifescore,
}

impl Score {
    pub open spec fn wf(self) -> bool {
        &&& self.datetime.wf()
        &&& self.wifescore_judged.wf()
        &&& self.wifescore_j4.wf()
    }
}

/// The scores of one chart at one rate.
#[derive(Clone, Debug)]
pub struct ScoresAt {
    pub scores: Vec<Score>,
}

/// The score groups of one chart.
#[derive(Clone, Debug)]
pub struct Chart {
    pub scores_at: Vec<ScoresAt>,
}

#[derive(Clone, Debug)]
pub struct PlayerScores {
    pub charts: Vec<Chart>,
}

/// A player's whole score history, as read from a save file.
#[derive(Clone, Debug)]
pub struct XmlData {
    pub player_scores: PlayerScores,
}

/// The scores of a sequence of groups, group after group.
pub open spec fn groups_scores(groups: Seq<ScoresAt>) -> Seq<Score>
    decreases groups.len(),
{
    if groups.len() == 0 {
        Seq::empty()
    } else {
        groups_scores(groups.drop_last()) + groups.last().scores@
    }
}

/// The scores of a sequence of charts, chart after chart.
pub open spec fn charts_scores(charts: Seq<Chart>) -> Seq<Score>
    decreases charts.len(),
{
    if charts.len() == 0 {
        Seq::empty()
    } else {
        charts_scores(charts.drop_last()) + groups_scores(charts.last().scores_at@)
    }
}

/// Whether the `i`-th score comes before the `j`-th in chronological order:
/// by time, and in source order between equal times.
pub open spec fn precedes(s: Seq<Score>, i: int, j: int) -> bool {
    s[i].datetime.lt(s[j].datetime) || (s[i].datetime == s[j].datetime && i < j)
}

/// `ord` lists the positions of `s` in chronological order: the stable sort
/// of `s` by time.
pub open spec fn is_chronological_order(s: Seq<Score>, ord: Seq<usize>) -> bool {
    &&& ord.len() == s.len()
    &&& forall|i: int| 0 <= i < ord.len() ==> ord[i] < s.len()
    &&& forall|i: int, j: int|
        #![trigger ord[i], ord[j]]
        0 <= i < j < ord.len() ==> precedes(s, ord[i] as int, ord[j] as int)
}

proof fn lemma_precedes_transitive(s: Seq<Score>, i: int, j: int, k: int)
    requires
        precedes(s, i, j),
        precedes(s, j, k),
    ensures
        precedes(s, i, k),
{
    if s[i].datetime.lt(s[j].datetime) && s[j].datetime.lt(s[k].datetime) {
        lemma_lt_transitive(s[i].datetime, s[j].datetime, s[k].datetime);
    }
}

/// `r` is `s` sorted by time, with ties kept in the order of `s`.
pub open spec fn is_chronological_scores(s: Seq<Score>, r: Seq<Score>) -> bool {
    exists|ord: Seq<usize>|
        #![trigger is_chronological_order(s, ord)]
        is_chronological_order(s, ord) && r == ord.map_values(|i: usize| s[i as int])
}

proof fn lemma_precedes_order(s: Seq<Score>, x: int, y: int)
    ensures
        !precedes(s, x, x),
        !(precedes(s, x, y) && precedes(s, y, x)),
        x != y ==> precedes(s, x, y) || precedes(s, y, x),
{
    lemma_lt_total(s[x].datetime, s[y].datetime);
    lemma_lt_total(s[y].datetime, s[x].datetime);
}

/// A chronological order lists every position of `s`.
proof fn lemma_order_covers(s: Seq<Score>, ord: Seq<usize>, x: int)
    requires
        is_chronological_order(s, ord),
        0 <= x < s.len(),
    ensures
        exists|j: int| 0 <= j < ord.len() && ord[j] == x,
{
    let oi = ord.map_values(|v: usize| v as int);
    assert(oi.no_duplicates()) by {
        assert forall|a: int, b: int| 0 <= a < oi.len() && 0 <= b < oi.len() && a != b implies oi[a]
            != oi[b] by {
            if a < b {
                assert(precedes(s, ord[a] as int, ord[b] as int));
            } else {
                assert(precedes(s, ord[b] as int, ord[a] as int));
            }
            lemma_precedes_order(s, ord[a] as int, ord[b] as int);
        }
    }
    oi.unique_seq_to_set();
    let range = vstd::set_lib::set_int_range(0, s.len() as int);
    vstd::set_lib::lemma_int_range(0, s.len() as int);
    assert(oi.to_set().subset_of(range)) by {
        assert forall|v: int| oi.to_set().contains(v) implies range.contains(v) by {
            let j = choose|j: int| 0 <= j < oi.len() && oi[j] == v;
            assert(ord[j] < s.len());
        }
    }
    vstd::set_lib::lemma_subset_equality(oi.to_set(), range);
    assert(range.contains(x));
    assert(oi.to_set().contains(x));
    let j = choose|j: int| 0 <= j < oi.len() && oi[j] == x;
    assert(ord[j] == x);
}

proof fn lemma_orders_agree_up_to(s: Seq<Score>, o1: Seq<usize>, o2: Seq<usize>, i: int)
    requires
        is_chronological_order(s, o1),
        is_chronological_order(s, o2),
        0 <= i < s.len(),
    ensures
        forall|k: int| 0 <= k <= i ==> o1[k] == o2[k],
    decreases i,
{
    if i > 0 {
        lemma_orders_agree_up_to(s, o1, o2, i - 1);
    }
    let x = o1[i] as int;
    let y = o2[i] as int;
    if x != y {
        lemma_precedes_order(s, x, y);
        if precedes(s, x, y) {
            lemma_order_covers(s, o2, x);
            let j = choose|j: int| 0 <= j < o2.len() && o2[j] == x;
            if j < i {
                assert(o1[j] == o2[j]);
                assert(precedes(s, o1[j] as int, o1[i] as int));
                lemma_precedes_order(s, x, x);
            } else {
                assert(precedes(s, o2[i] as int, o2[j] as int));
            }
        } else {
            lemma_order_covers(s, o1, y);
            let j = choose|j: int| 0 <= j < o1.len() && o1[j] == y;
            if j < i {
                assert(o1[j] == o2[j]);
                assert(precedes(s, o2[j] as int, o2[i] as int));
                lemma_precedes_order(s, y, y);
            } else {
                assert(precedes(s, o1[i] as int, o1[j] as int));
            }
        }
    }
}

/// The chronological order of a sequence of scores is unique: sorting by
/// time, with ties kept in source order, admits a single result, so deriving
/// it again from the same scores gives the same sequence.
pub proof fn lemma_chronological_order_unique(s: Seq<Score>, o1: Seq<usize>, o2: Seq<usize>)
    requires
        is_chronological_order(s, o1),
        is_chronological_order(s, o2),
    ensures
        o1 == o2,
{
    if s.len() > 0 {
        lemma_orders_agree_up_to(s, o1, o2, s.len() - 1);
    }
    assert(o1 =~= o2);
}

/// The positions of `scores` in chronological order; scores with equal times
/// keep their order.
pub fn chronological_order(scores: &Vec<Score>) -> (r: Vec<usize>)
    ensures
        is_chronological_order(scores@, r@),
{
    let ghost s = scores@;
    let mut ord: Vec<usize> = Vec::new();
    let mut i: usize = 0;
    while i < scores.len()
        invariant
            s == scores@,
            i <= s.len(),
            ord.len() == i,
            forall|q: int| 0 <= q < ord.len() ==> ord[q] < i,
            forall|a: int, b: int|
                #![trigger ord@[a], ord@[b]]
                0 <= a < b < ord.len() ==> precedes(s, ord@[a] as int, ord@[b] as int),
        decreases s.len() - i,
    {
        let t = scores[i].datetime;
        let mut p: usize = ord.len();
        while p > 0 && t.is_before(&scores[ord[p - 1]].datetime)
            invariant
                s == scores@,
                i < s.len(),
                t == s[i as int].datetime,
                p <= ord.len(),
                ord.len() == i,
                forall|q: int| 0 <= q < ord.len() ==> ord[q] < i,
                forall|q: int| p <= q < ord.len() ==> t.lt(s[ord[q] as int].datetime),
            decreases p,
        {
            p = p - 1;
        }
        proof {
            assert forall|q: int| p <= q < ord.len() implies precedes(
                s,
                i as int,
                ord@[q] as int,
            ) by {}
            if p > 0 {
                assert(precedes(s, ord@[p - 1] as int, i as int)) by {
                    lemma_lt_total(t, s[ord@[p - 1] as int].datetime);
                }
                assert forall|q: int| 0 <= q < p implies precedes(s, ord@[q] as int, i as int) by {
                    if q < p - 1 {
                        lemma_precedes_transitive(s, ord@[q] as int, ord@[p - 1] as int, i as int);
                    }
                }
            }
        }
        let ghost old_ord = ord@;
        ord.insert(p, i);
        proof {
            assert forall|a: int, b: int|
                #![trigger ord@[a], ord@[b]]
                0 <= a < b < ord.len() implies precedes(s, ord@[a] as int, ord@[b] as int) by {
                if b < p {
                    assert(ord@[a] == old_ord[a] && ord@[b] == old_ord[b]);
                } else if b == p {
                    assert(ord@[a] == old_ord[a]);
                } else if a < p {
                    assert(ord@[a] == old_ord[a] && ord@[b] == old_ord[b - 1]);
                } else if a == p {
                    assert(ord@[b] == old_ord[b - 1]);
                } else {
                    assert(ord@[a] == old_ord[a - 1] && ord@[b] == old_ord[b - 1]);
                }
            }
        }
        i = i + 1;
    }
    ord
}

impl XmlData {
    /// Every score of the history, in file order: chart by chart, group by group.
    pub open spec fn spec_scores(&self) -> Seq<Score> {
        charts_scores(self.player_scores.charts@)
    }

    /// Every score of the history, in file order.
    pub fn all_scores(&self) -> (r: Vec<Score>)
        ensures
            r@ == self.spec_scores(),
    {
        let charts = &self.player_scores.charts;
        let mut out: Vec<Score> = Vec::new();
        let mut c: usize = 0;
        while c < charts.len()
            invariant
                c <= charts.len(),
                charts == &self.player_scores.charts,
                out@ == charts_scores(charts@.take(c as int)),
            decreases charts.len() - c,
        {
            let groups = &charts[c].scores_at;
            let ghost base = out@;
            let mut g: usize = 0;
            while g < groups.len()
                invariant
                    g <= groups.len(),
                    out@ == base + groups_scores(groups@.take(g as int)),
                decreases groups.len() - g,
            {
                let scores = &groups[g].scores;
                let ghost base2 = out@;
                let mut k: usize = 0;
                while k < scores.len()
                    invariant
                        k <= scores.len(),
                        out@ == base2 + scores@.take(k as int),
                    decreases scores.len() - k,
                {
                    out.push(scores[k]);
                    k = k + 1;
                    proof {
                        assert(scores@.take(k as int) == scores@.take(k - 1) + seq![scores@[k - 1]]);
                    }
                }
                proof {
                    assert(scores@.take(k as int) == scores@);
                    assert(groups@.take(g + 1).drop_last() == groups@.take(g as int));
                }
                g = g + 1;
            }
            proof {
                assert(groups@.take(g as int) == groups@);
                assert(charts@.take(c + 1).drop_last() == charts@.take(c as int));
            }
            c = c + 1;
        }
        proof {
            assert(charts@.take(c as int) == charts@);
        }
        out
    }

    /// Every score of the history, sorted by time; scores with equal times keep
    /// their file order.
    pub fn scores_chronologically(&self) -> (r: Vec<Score>)
        ensures
            is_chronological_scores(self.spec_scores(), r@),
            forall|i: int, j: int|
                #![trigger r@[i], r@[j]]
                0 <= i < j < r.len() ==> r@[i].datetime.le(r@[j].datetime),
    {
        let all = self.all_scores();
        let ord = chronological_order(&all);
        let mut out: Vec<Score> = Vec::new();
        let mut j: usize = 0;
        while j < ord.len()
            invariant
                all@ == self.spec_scores(),
                is_chronological_order(all@, ord@),
                j <= ord.len(),
                out@ == ord@.take(j as int).map_values(|i: usize| all@[i as int]),
            decreases ord.len() - j,
        {
            out.push(all[ord[j]]);
            j = j + 1;
            proof {
                assert(ord@.take(j as int).map_values(|i: usize| all@[i as int]) == ord@.take(
                    j - 1,
                ).map_values(|i: usize| all@[i as int]).push(all@[ord@[j - 1] as int]));
            }
        }
        proof {
            assert(ord@.take(j as int) == ord@);
            assert forall|a: int, b: int|
                #![trigger out@[a], out@[b]]
                0 <= a < b < out.len() implies out@[a].datetime.le(out@[b].datetime) by {
                assert(precedes(all@, ord@[a] as int, ord@[b] as int));
            }
        }
        out
    }
}

/// Sorting a history's scores chronologically has a single result.
pub proof fn lemma_chronological_scores_unique(s: Seq<Score>, r1: Seq<Score>, r2: Seq<Score>)
    requires
        is_chronological_scores(s, r1),
        is_chronological_scores(s, r2),
    ensures
        r1 == r2,
{
    let o1 = choose|ord: Seq<usize>|
        #![trigger is_chronological_order(s, ord)]
        is_chronological_order(s, ord) && r1 == ord.map_values(|i: usize| s[i as int]);
    let o2 = choose|ord: Seq<usize>|
        #![trigger is_chronological_order(s, ord)]
        is_chronological_order(s, ord) && r2 == ord.map_values(|i: usize| s[i as int]);
    lemma_chronological_order_unique(s, o1, o2);
}

} // verus!
