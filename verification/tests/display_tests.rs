use audiolyzer::display::{
    DiscreteStrategy, DisplayStrategy, DisplayStrategyFactory, Level, LineStrategy, Mark,
    PointStrategy,
};

fn stem(b: usize) -> Mark {
    Mark::Line { x1: b, y1: Level::Zero, x2: b, y2: Level::Bin(b) }
}

fn chord(a: usize, b: usize) -> Mark {
    Mark::Line { x1: a, y1: Level::Bin(a), x2: b, y2: Level::Bin(b) }
}

#[test]
fn discrete_draws_a_stem_per_nonzero_bin() {
    let nz = vec![false, true, false, true, true];
    assert_eq!(DiscreteStrategy.render(&nz), vec![stem(1), stem(3), stem(4)]);
}

#[test]
fn discrete_of_silence_draws_nothing() {
    assert_eq!(DiscreteStrategy.render(&vec![false, false]), vec![]);
    assert_eq!(DiscreteStrategy.render(&vec![]), vec![]);
}

#[test]
fn point_draws_a_dot_per_nonzero_bin() {
    let nz = vec![true, false, true];
    assert_eq!(
        PointStrategy.render(&nz),
        vec![Mark::Point { bin: 0 }, Mark::Point { bin: 2 }]
    );
}

#[test]
fn line_joins_nonzero_bins_from_bin_zero() {
    let nz = vec![false, true, false, true];
    assert_eq!(
        LineStrategy.render(&nz),
        vec![chord(0, 1), chord(1, 3), stem(3)]
    );
}

#[test]
fn line_of_silence_is_a_stem_at_zero() {
    assert_eq!(LineStrategy.render(&vec![false, false, false]), vec![stem(0)]);
    assert_eq!(LineStrategy.render(&vec![true]), vec![stem(0)]);
}

#[test]
fn line_segments_connect() {
    let nz = vec![true, true, false, false, true, false, true, false];
    let marks = LineStrategy.render(&nz);
    assert_eq!(marks, vec![chord(0, 1), chord(1, 4), chord(4, 6), stem(6)]);
    for w in marks.windows(2) {
        if let (Mark::Line { x2, .. }, Mark::Line { x1, .. }) = (w[0], w[1]) {
            assert_eq!(x2, x1);
        }
    }
}

#[test]
fn factory_picks_by_name() {
    assert_eq!(
        DisplayStrategyFactory::get_display_strategy("DISCRETE"),
        DisplayStrategy::Discrete(DiscreteStrategy)
    );
    assert_eq!(
        DisplayStrategyFactory::get_display_strategy("POINT"),
        DisplayStrategy::Point(PointStrategy)
    );
    assert_eq!(
        DisplayStrategyFactory::get_display_strategy("LINE"),
        DisplayStrategy::Line(LineStrategy)
    );
}

#[test]
fn factory_falls_back_to_discrete() {
    assert_eq!(
        DisplayStrategyFactory::get_display_strategy("line"),
        DisplayStrategy::Discrete(DiscreteStrategy)
    );
    assert_eq!(
        DisplayStrategyFactory::get_display_strategy(""),
        DisplayStrategy::Discrete(DiscreteStrategy)
    );
}

#[test]
fn strategy_render_dispatches() {
    let nz = vec![false, true];
    assert_eq!(
        DisplayStrategy::Point(PointStrategy).render(&nz),
        vec![Mark::Point { bin: 1 }]
    );
    assert_eq!(
        DisplayStrategy::Line(LineStrategy).render(&nz),
        vec![chord(0, 1), stem(1)]
    );
    assert_eq!(
        DisplayStrategy::Discrete(DiscreteStrategy).render(&nz),
        vec![stem(1)]
    );
}
