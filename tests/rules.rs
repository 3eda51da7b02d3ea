use rifegame::cell::Cell;
use rifegame::rule::Rule;
use rifegame::rules::{Overpopulation, Reproduction, RuleKind, StandardRule, Survival, Underpopulation};

fn table_holds<R: Rule>(rule: &R) {
    assert_eq!(rule.apply(Cell::Dead, 3), Cell::Alive);
    for n in 0..=8 {
        if n != 3 {
            assert_eq!(rule.apply(Cell::Dead, n), Cell::Dead);
        }
    }
    assert_eq!(rule.apply(Cell::Alive, 0), Cell::Dead);
    assert_eq!(rule.apply(Cell::Alive, 1), Cell::Dead);
    assert_eq!(rule.apply(Cell::Alive, 2), Cell::Alive);
    assert_eq!(rule.apply(Cell::Alive, 3), Cell::Alive);
    assert_eq!(rule.apply(Cell::Alive, 4), Cell::Dead);
    assert_eq!(rule.apply(Cell::Alive, 8), Cell::Dead);
}

#[test]
fn standard_rule_table() {
    table_holds(&StandardRule);
}

#[test]
fn chained_rules_table() {
    table_holds(&vec![
        RuleKind::Overpopulation,
        RuleKind::Survival,
        RuleKind::Underpopulation,
        RuleKind::Reproduction,
    ]);
    table_holds(&vec![
        RuleKind::Reproduction,
        RuleKind::Underpopulation,
        RuleKind::Overpopulation,
    ]);
}

#[test]
fn incomplete_chain_differs() {
    let chain = vec![RuleKind::Survival, RuleKind::Reproduction];
    assert_eq!(chain.apply(Cell::Alive, 1), Cell::Alive);
    assert_eq!(chain.apply(Cell::Dead, 3), Cell::Alive);
    let empty: Vec<RuleKind> = Vec::new();
    assert_eq!(empty.apply(Cell::Alive, 8), Cell::Alive);
}

#[test]
fn single_rules_change_only_their_case() {
    assert_eq!(Underpopulation.apply(Cell::Alive, 1), Cell::Dead);
    assert_eq!(Underpopulation.apply(Cell::Alive, 2), Cell::Alive);
    assert_eq!(Underpopulation.apply(Cell::Dead, 3), Cell::Dead);
    assert_eq!(Survival.apply(Cell::Alive, 2), Cell::Alive);
    assert_eq!(Survival.apply(Cell::Alive, 5), Cell::Alive);
    assert_eq!(Survival.apply(Cell::Dead, 3), Cell::Dead);
    assert_eq!(Overpopulation.apply(Cell::Alive, 4), Cell::Dead);
    assert_eq!(Overpopulation.apply(Cell::Alive, 3), Cell::Alive);
    assert_eq!(Overpopulation.apply(Cell::Dead, 8), Cell::Dead);
    assert_eq!(Reproduction.apply(Cell::Dead, 3), Cell::Alive);
    assert_eq!(Reproduction.apply(Cell::Dead, 2), Cell::Dead);
    assert_eq!(Reproduction.apply(Cell::Alive, 0), Cell::Alive);
}
