use vstd::prelude::*;

verus! {

/// A height on the plot: the axis, or the value held by a spectrum bin.
#[derive(Clone, Copy, Debug, PartialEq, Eq, Structural)]
pub enum Level {
    Zero,
    Bin(usize),
}

/// One shape to draw.  Horizontal positions are bin indices; the caller places bin `b`
/// at frequency `b * freq_step` and reads heights from the bins.
#[derive(Clone, Copy, Debug, PartialEq, Eq, Structural)]
pub enum Mark {
    /// A straight segment from `(x1, y1)` to `(x2, y2)`.
    Line { x1: usize, y1: Level, x2: usize, y2: Level },
    /// A single dot at the top of bin `bin`.
    Point { bin: usize },
}

/// The bins among positions `lo .. hi` whose value is nonzero, in increasing order.
pub open spec fn lit_bins(nonzero: Seq<bool>, lo: nat, hi: nat) -> Seq<usize>
    decreases hi,
{
    if hi <= lo {
        Seq::empty()
    } else if nonzero[hi - 1] {
        lit_bins(nonzero, lo, (hi - 1) as nat).push((hi - 1) as usize)
    } else {
        lit_bins(nonzero, lo, (hi - 1) as nat)
    }
}

/// A vertical segment from the axis up to the value of bin `b`.
pub open spec fn stem(b: usize) -> Mark {
    Mark::Line { x1: b, y1: Level::Zero, x2: b, y2: Level::Bin(b) }
}

/// A segment joining the tops of bins `a` and `b`.
pub open spec fn chord(a: usize, b: usize) -> Mark {
    Mark::Line { x1: a, y1: Level::Bin(a), x2: b, y2: Level::Bin(b) }
}

/// Discrete display: one stem per nonzero bin, from left to right.
pub open spec fn discrete_marks(nonzero: Seq<bool>) -> Seq<Mark> {
    lit_bins(nonzero, 0, nonzero.len()).map_values(|b: usize| stem(b))
}

/// Point display: one dot per nonzero bin, from left to right.
pub open spec fn point_marks(nonzero: Seq<bool>) -> Seq<Mark> {
    lit_bins(nonzero, 0, nonzero.len()).map_values(|b: usize| Mark::Point { bin: b })
}

/// The corners of the area graph: bin 0, then every nonzero bin after it.
pub open spec fn line_anchors(nonzero: Seq<bool>) -> Seq<usize> {
    seq![0usize] + lit_bins(nonzero, 1, nonzero.len())
}

/// Area-graph display: chords joining consecutive anchors, then a stem that closes the
/// graph at the last anchor.
pub open spec fn line_marks(nonzero: Seq<bool>) -> Seq<Mark> {
    let a = line_anchors(nonzero);
    Seq::new((a.len() - 1) as nat, |j: int| chord(a[j], a[j + 1])).push(stem(a.last()))
}

/// Everything `lit_bins` lists is a nonzero bin inside the range, in strictly increasing order.
pub proof fn lemma_lit_bins_facts(nonzero: Seq<bool>, lo: nat, hi: nat)
    requires
        hi <= nonzero.len(),
        hi <= usize::MAX,
    ensures
        lit_bins(nonzero, lo, hi).len() <= hi,
        forall|j: int|
            0 <= j < lit_bins(nonzero, lo, hi).len() ==> {
                let b = #[trigger] lit_bins(nonzero, lo, hi)[j];
                &&& lo <= b < hi
                &&& nonzero[b as int]
            },
        forall|j: int, k: int|
            0 <= j < k < lit_bins(nonzero, lo, hi).len() ==> lit_bins(nonzero, lo, hi)[j]
                < lit_bins(nonzero, lo, hi)[k],
    decreases hi,
{
    if hi > lo {
        lemma_lit_bins_facts(nonzero, lo, (hi - 1) as nat);
        let s = lit_bins(nonzero, lo, (hi - 1) as nat);
        if nonzero[hi - 1] {
            assert(lit_bins(nonzero, lo, hi) == s.push((hi - 1) as usize));
        }
    }
}

/// Every nonzero bin in the range is listed by `lit_bins`.
pub proof fn lemma_lit_bins_complete(nonzero: Seq<bool>, lo: nat, hi: nat, b: int)
    requires
        hi <= nonzero.len(),
        hi <= usize::MAX,
        lo <= b < hi,
        nonzero[b],
    ensures
        lit_bins(nonzero, lo, hi).contains(b as usize),
    decreases hi,
{
    if b < hi - 1 {
        lemma_lit_bins_complete(nonzero, lo, (hi - 1) as nat, b);
        let s = lit_bins(nonzero, lo, (hi - 1) as nat);
        let j = choose|j: int| 0 <= j < s.len() && s[j] == b as usize;
        if nonzero[hi - 1] {
            assert(lit_bins(nonzero, lo, hi)[j] == b as usize);
        }
    } else {
        let s = lit_bins(nonzero, lo, (hi - 1) as nat);
        assert(lit_bins(nonzero, lo, hi)[s.len() as int] == b as usize);
    }
}

/// The bin where a mark starts (its left end).
pub open spec fn mark_start(m: Mark) -> usize {
    match m {
        Mark::Line { x1, .. } => x1,
        Mark::Point { bin } => bin,
    }
}

/// The bin where a mark ends (its right end).
pub open spec fn mark_end(m: Mark) -> usize {
    match m {
        Mark::Line { x2, .. } => x2,
        Mark::Point { bin } => bin,
    }
}

/// The discrete and point displays draw exactly one mark per nonzero bin, each at its own
/// bin, from left to right: a stem for the discrete display and a dot for the point display.
pub proof fn lemma_one_mark_per_nonzero_bin(nonzero: Seq<bool>)
    requires
        nonzero.len() <= usize::MAX,
    ensures
        discrete_marks(nonzero).len() == point_marks(nonzero).len(),
        forall|j: int|
            0 <= j < discrete_marks(nonzero).len() ==> {
                let b = mark_start(#[trigger] discrete_marks(nonzero)[j]);
                &&& b < nonzero.len()
                &&& nonzero[b as int]
                &&& discrete_marks(nonzero)[j] == stem(b)
                &&& point_marks(nonzero)[j] == Mark::Point { bin: b }
            },
        forall|b: int|
            0 <= b < nonzero.len() && #[trigger] nonzero[b] ==> exists|j: int|
                0 <= j < discrete_marks(nonzero).len() && mark_start(
                    #[trigger] discrete_marks(nonzero)[j],
                ) == b,
        forall|j: int, k: int|
            0 <= j < k < discrete_marks(nonzero).len() ==> mark_start(discrete_marks(nonzero)[j])
                < mark_start(discrete_marks(nonzero)[k]),
{
    let bs = lit_bins(nonzero, 0, nonzero.len());
    lemma_lit_bins_facts(nonzero, 0, nonzero.len());
    assert forall|b: int|
        0 <= b < nonzero.len() && #[trigger] nonzero[b] implies exists|j: int|
            0 <= j < discrete_marks(nonzero).len() && mark_start(
                #[trigger] discrete_marks(nonzero)[j],
            ) == b by {
        lemma_lit_bins_complete(nonzero, 0, nonzero.len(), b);
        let j = choose|j: int| 0 <= j < bs.len() && bs[j] == b as usize;
        assert(mark_start(discrete_marks(nonzero)[j]) == b);
    }
}

/// The area graph is one connected path: it starts at bin 0, every segment but the last
/// goes strictly to the right and ends where the next one starts, and the last mark is a
/// stem closing the graph where the path ends.  The corners of the path are exactly bin 0
/// and the nonzero bins.
pub proof fn lemma_line_marks_form_path(nonzero: Seq<bool>)
    requires
        0 < nonzero.len() <= usize::MAX,
    ensures
        ({
            let m = line_marks(nonzero);
            let last = m.len() - 1;
            &&& m.len() >= 1
            &&& mark_start(m[0]) == 0
            &&& forall|j: int|
                0 <= j < last ==> mark_start(#[trigger] m[j]) < mark_end(m[j])
                    && m[j] == chord(mark_start(m[j]), mark_end(m[j]))
            &&& forall|j: int| 0 <= j < last ==> mark_end(#[trigger] m[j]) == mark_start(m[j + 1])
            &&& m[last] == stem(mark_start(m[last]))
            &&& forall|j: int|
                0 <= j <= last ==> {
                    let b = mark_start(#[trigger] m[j]);
                    b < nonzero.len() && (b == 0 || nonzero[b as int])
                }
            &&& forall|b: int|
                0 < b < nonzero.len() && #[trigger] nonzero[b] ==> exists|j: int|
                    0 <= j <= last && mark_start(#[trigger] m[j]) == b
        }),
{
    let a = line_anchors(nonzero);
    let rest = lit_bins(nonzero, 1, nonzero.len());
    lemma_lit_bins_facts(nonzero, 1, nonzero.len());
    let m = line_marks(nonzero);
    let last = m.len() - 1;
    assert(a.len() == rest.len() + 1);
    assert forall|j: int| 0 <= j < a.len() implies {
        &&& #[trigger] a[j] < nonzero.len()
        &&& (a[j] == 0 || nonzero[a[j] as int])
        &&& (j > 0 ==> a[j] >= 1)
    } by {
        if j > 0 {
            assert(a[j] == rest[j - 1]);
        }
    }
    assert forall|j: int, k: int| 0 <= j < k < a.len() implies a[j] < a[k] by {
        if j > 0 {
            assert(a[j] == rest[j - 1]);
        }
        assert(a[k] == rest[k - 1]);
    }
    assert forall|j: int| 0 <= j <= last implies mark_start(#[trigger] m[j]) == a[j] by {}
    assert forall|b: int|
        0 < b < nonzero.len() && #[trigger] nonzero[b] implies exists|j: int|
            0 <= j <= last && mark_start(#[trigger] m[j]) == b by {
        lemma_lit_bins_complete(nonzero, 1, nonzero.len(), b);
        let i = choose|i: int| 0 <= i < rest.len() && rest[i] == b as usize;
        assert(a[i + 1] == b);
        assert(mark_start(m[i + 1]) == b);
    }
}

/// Draws a stem for every nonzero bin.
#[derive(Clone, Copy, Debug, PartialEq, Eq, Structural)]
pub struct DiscreteStrategy;

/// Draws a dot for every nonzero bin.
#[derive(Clone, Copy, Debug, PartialEq, Eq, Structural)]
pub struct PointStrategy;

/// Draws the spectrum as an area graph through the nonzero bins.
#[derive(Clone, Copy, Debug, PartialEq, Eq, Structural)]
pub struct LineStrategy;

impl DiscreteStrategy {
    /// The marks for bins whose nonzero-ness is `nonzero[i]`.
    pub fn render(&self, nonzero: &Vec<bool>) -> (marks: Vec<Mark>)
        ensures
            marks@ == discrete_marks(nonzero@),
    {
        let mut marks: Vec<Mark> = Vec::new();
        let n = nonzero.len();
        for i in 0..n
            invariant
                n == nonzero@.len(),
                marks@ == lit_bins(nonzero@, 0, i as nat).map_values(|b: usize| stem(b)),
        {
            let ghost before = lit_bins(nonzero@, 0, i as nat);
            if nonzero[i] {
                marks.push(Mark::Line { x1: i, y1: Level::Zero, x2: i, y2: Level::Bin(i) });
                assert(lit_bins(nonzero@, 0, (i + 1) as nat) == before.push(i));
                assert(before.push(i).map_values(|b: usize| stem(b)) =~= before.map_values(
                    |b: usize| stem(b),
                ).push(stem(i)));
            }
        }
        marks
    }
}

impl PointStrategy {
    /// The marks for bins whose nonzero-ness is `nonzero[i]`.
    pub fn render(&self, nonzero: &Vec<bool>) -> (marks: Vec<Mark>)
        ensures
            marks@ == point_marks(nonzero@),
    {
        let mut marks: Vec<Mark> = Vec::new();
        let n = nonzero.len();
        for i in 0..n
            invariant
                n == nonzero@.len(),
                marks@ == lit_bins(nonzero@, 0, i as nat).map_values(
                    |b: usize| Mark::Point { bin: b },
                ),
        {
            let ghost before = lit_bins(nonzero@, 0, i as nat);
            if nonzero[i] {
                marks.push(Mark::Point { bin: i });
                assert(lit_bins(nonzero@, 0, (i + 1) as nat) == before.push(i));
                assert(before.push(i).map_values(|b: usize| Mark::Point { bin: b })
                    =~= before.map_values(|b: usize| Mark::Point { bin: b }).push(
                    Mark::Point { bin: i },
                ));
            }
        }
        marks
    }
}

impl LineStrategy {
    /// The marks for bins whose nonzero-ness is `nonzero[i]`.  There must be at least one bin:
    /// the graph always starts at bin 0.
    pub fn render(&self, nonzero: &Vec<bool>) -> (marks: Vec<Mark>)
        requires
            nonzero@.len() > 0,
        ensures
            marks@ == line_marks(nonzero@),
    {
        let mut marks: Vec<Mark> = Vec::new();
        let n = nonzero.len();
        let mut l: usize = 0;
        for idx in 1..n
            invariant
                n == nonzero@.len(),
                n > 0,
                ({
                    let a = seq![0usize] + lit_bins(nonzero@, 1, idx as nat);
                    &&& l == a.last()
                    &&& marks@ == Seq::new((a.len() - 1) as nat, |j: int| chord(a[j], a[j + 1]))
                }),
        {
            let ghost a = seq![0usize] + lit_bins(nonzero@, 1, idx as nat);
            if nonzero[idx] {
                marks.push(
                    Mark::Line { x1: l, y1: Level::Bin(l), x2: idx, y2: Level::Bin(idx) },
                );
                l = idx;
                let ghost a2 = seq![0usize] + lit_bins(nonzero@, 1, (idx + 1) as nat);
                assert(a2 =~= a.push(idx));
                assert(marks@ =~= Seq::new((a2.len() - 1) as nat, |j: int| chord(a2[j], a2[j + 1])));
            } else {
                let ghost a2 = seq![0usize] + lit_bins(nonzero@, 1, (idx + 1) as nat);
                assert(a2 =~= a);
            }
        }
        marks.push(Mark::Line { x1: l, y1: Level::Zero, x2: l, y2: Level::Bin(l) });
        marks
    }
}

/// The way the spectrum is drawn, chosen by name.
#[derive(Clone, Copy, Debug, PartialEq, Eq, Structural)]
pub enum DisplayStrategy {
    Discrete(DiscreteStrategy),
    Point(PointStrategy),
    Line(LineStrategy),
}

/// The marks a strategy draws for the given nonzero pattern.
pub open spec fn strategy_marks(s: DisplayStrategy, nonzero: Seq<bool>) -> Seq<Mark> {
    match s {
        DisplayStrategy::Discrete(_) => discrete_marks(nonzero),
        DisplayStrategy::Point(_) => point_marks(nonzero),
        DisplayStrategy::Line(_) => line_marks(nonzero),
    }
}

impl DisplayStrategy {
    /// The marks to draw for bins whose nonzero-ness is `nonzero[i]`.  The area graph needs
    /// at least one bin.
    pub fn render(&self, nonzero: &Vec<bool>) -> (marks: Vec<Mark>)
        requires
            *self is Line ==> nonzero@.len() > 0,
        ensures
            marks@ == strategy_marks(*self, nonzero@),
    {
        match self {
            DisplayStrategy::Discrete(s) => s.render(nonzero),
            DisplayStrategy::Point(s) => s.render(nonzero),
            DisplayStrategy::Line(s) => s.render(nonzero),
        }
    }
}

/// Chooses a display strategy from its name.
#[derive(Clone, Copy, Debug, PartialEq, Eq, Structural)]
pub struct DisplayStrategyFactory;

/// The strategy a display mode name selects: `"POINT"`, `"LINE"`, and the discrete display
/// for `"DISCRETE"` and for every other name.
pub open spec fn strategy_for_name(name: Seq<char>) -> DisplayStrategy {
    if name == "POINT"@ {
        DisplayStrategy::Point(PointStrategy)
    } else if name == "LINE"@ {
        DisplayStrategy::Line(LineStrategy)
    } else {
        DisplayStrategy::Discrete(DiscreteStrategy)
    }
}

/// The display mode names: exactly "POINT" selects dots, exactly "LINE" the area graph,
/// and every other name, "DISCRETE" among them, the stems.
pub proof fn lemma_strategy_names(name: Seq<char>)
    ensures
        strategy_for_name(name) is Point <==> name == "POINT"@,
        strategy_for_name(name) is Line <==> name == "LINE"@,
        strategy_for_name(name) is Discrete <==> (name != "POINT"@ && name != "LINE"@),
        strategy_for_name("DISCRETE"@) is Discrete,
{
    reveal_strlit("DISCRETE");
    reveal_strlit("POINT");
    reveal_strlit("LINE");
    assert("DISCRETE"@.len() == 8 && "POINT"@.len() == 5 && "LINE"@.len() == 4);
}

impl DisplayStrategyFactory {
    /// The strategy named `strategy`; unknown names give the discrete display.
    pub fn get_display_strategy(strategy: &str) -> (s: DisplayStrategy)
        ensures
            s == strategy_for_name(strategy@),
    {
        let name: String = strategy.to_owned();
        let discrete: String = "DISCRETE".to_owned();
        let point: String = "POINT".to_owned();
        let line: String = "LINE".to_owned();
        proof {
            reveal_strlit("DISCRETE");
            reveal_strlit("POINT");
            reveal_strlit("LINE");
        }
        assert("DISCRETE"@.len() == 8);
        assert("POINT"@.len() == 5);
        assert("LINE"@.len() == 4);
        if name.eq(&discrete) {
            DisplayStrategy::Discrete(DiscreteStrategy)
        } else if name.eq(&point) {
            DisplayStrategy::Point(PointStrategy)
        } else if name.eq(&line) {
            DisplayStrategy::Line(LineStrategy)
        } else {
            DisplayStrategy::Discrete(DiscreteStrategy)
        }
    }
}

/// Whatever the strategy, its marks cover the whole input: every nonzero bin gets a mark
/// starting at it (for the area graph, every nonzero bin after bin 0, which is always a
/// corner), and every mark starts at a bin of the input that is nonzero (or at bin 0 for
/// the area graph).  The discrete and point displays draw exactly as many marks as there
/// are nonzero bins, in increasing order of bin.
pub proof fn lemma_strategy_marks_cover_input(s: DisplayStrategy, nonzero: Seq<bool>)
    requires
        nonzero.len() <= usize::MAX,
        s is Line ==> nonzero.len() > 0,
    ensures
        forall|b: int|
            0 <= b < nonzero.len() && #[trigger] nonzero[b] ==> exists|j: int|
                0 <= j < strategy_marks(s, nonzero).len() && mark_start(
                    #[trigger] strategy_marks(s, nonzero)[j],
                ) == b,
        forall|j: int|
            0 <= j < strategy_marks(s, nonzero).len() ==> {
                let b = mark_start(#[trigger] strategy_marks(s, nonzero)[j]);
                &&& b < nonzero.len()
                &&& (nonzero[b as int] || (s is Line && b == 0))
            },
        !(s is Line) ==> forall|j: int, k: int|
            0 <= j < k < strategy_marks(s, nonzero).len() ==> mark_start(
                strategy_marks(s, nonzero)[j],
            ) < mark_start(strategy_marks(s, nonzero)[k]),
{
    if s is Line {
        {
            lemma_line_marks_form_path(nonzero);
            let m = line_marks(nonzero);
            assert(strategy_marks(s, nonzero) == m);
            assert forall|b: int|
                0 <= b < nonzero.len() && #[trigger] nonzero[b] implies exists|j: int|
                    0 <= j < strategy_marks(s, nonzero).len() && mark_start(
                        #[trigger] strategy_marks(s, nonzero)[j],
                    ) == b by {
                if b == 0 {
                    assert(0 < strategy_marks(s, nonzero).len());
                    assert(mark_start(strategy_marks(s, nonzero)[0]) == 0);
                } else {
                    assert(exists|j: int| 0 <= j <= m.len() - 1 && mark_start(#[trigger] m[j]) == b);
                    let j = choose|j: int| 0 <= j <= m.len() - 1 && mark_start(#[trigger] m[j]) == b;
                    assert(0 <= j < strategy_marks(s, nonzero).len());
                    assert(mark_start(strategy_marks(s, nonzero)[j]) == b);
                }
            }
        }
    } else {
        lemma_one_mark_per_nonzero_bin(nonzero);
        assert forall|j: int| 0 <= j < point_marks(nonzero).len() implies mark_start(
            #[trigger] point_marks(nonzero)[j],
        ) == mark_start(discrete_marks(nonzero)[j]) by {}
        assert forall|b: int|
            0 <= b < nonzero.len() && #[trigger] nonzero[b] implies exists|j: int|
                0 <= j < strategy_marks(s, nonzero).len() && mark_start(
                    #[trigger] strategy_marks(s, nonzero)[j],
                ) == b by {
            let d = discrete_marks(nonzero);
            let j = choose|j: int| 0 <= j < d.len() && mark_start(#[trigger] d[j]) == b;
            assert(mark_start(strategy_marks(s, nonzero)[j]) == b);
        }
    }
}

} // verus!
