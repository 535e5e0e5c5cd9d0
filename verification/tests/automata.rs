use cells::Automata;
use cells::AutomataError;
use cells::Rule;
use cells::TableRule;

fn seeded(size: usize, bits: u8, seed: Vec<bool>) -> Automata<TableRule> {
    match Automata::with_seed(size, TableRule::new(bits), seed) {
        Ok(automata) => automata,
        Err(_) => panic!("seed was rejected"),
    }
}

fn empty(size: usize, bits: u8) -> Automata<TableRule> {
    match Automata::new(size, TableRule::new(bits)) {
        Ok(automata) => automata,
        Err(_) => panic!("size was rejected"),
    }
}

#[test]
fn create_rejects_zero_size() {
    assert_eq!(
        Automata::new(0, TableRule::new(90)).err(),
        Some(AutomataError::InvalidSize)
    );
}

#[test]
fn create_with_seed_rejects_wrong_length() {
    let seed = vec![false, true, false, false];
    assert_eq!(
        Automata::with_seed(5, TableRule::new(90), seed).err(),
        Some(AutomataError::SizeMismatch)
    );
}

#[test]
fn bootstrap_generation_spans_the_lattice() {
    let automata = empty(7, 30);
    assert_eq!(automata.size(), 7);
    assert_eq!(automata.generations().len(), 0);
    assert_eq!(automata.new_generation().len(), 7);
}

#[test]
fn advance_appends_one_generation_per_call() {
    let mut automata = seeded(3, 90, vec![true, false, false]);
    assert_eq!(automata.generations().len(), 1);
    for calls in 1usize..=4 {
        automata.advance();
        assert_eq!(automata.generations().len(), 1 + calls);
    }
    for generation in automata.generations() {
        assert_eq!(generation.len(), 3);
    }
}

#[test]
fn advance_bootstraps_an_empty_automaton() {
    let mut automata = empty(6, 30);
    automata.advance();
    automata.advance();
    assert_eq!(automata.generations().len(), 2);
    for generation in automata.generations() {
        assert_eq!(generation.len(), 6);
    }
}

#[test]
fn generations_keeps_insertion_order_and_is_restartable() {
    let seed = vec![false, true, false, false, false];
    let mut automata = seeded(5, 90, seed.clone());
    automata.advance();
    automata.advance();
    let first: Vec<Vec<bool>> = automata.generations().clone();
    let second: Vec<Vec<bool>> = automata.generations().clone();
    assert_eq!(first, second);
    assert_eq!(first.len(), 3);
    assert_eq!(first[0], seed);
}

#[test]
fn seeded_evolution_is_deterministic() {
    let seed = vec![true, false, true, true, false, false, true];
    let mut a = seeded(7, 110, seed.clone());
    let mut b = seeded(7, 110, seed);
    for _ in 0..8 {
        a.advance();
        b.advance();
    }
    assert_eq!(a.generations(), b.generations());
}

#[test]
fn xor_rule_one_step() {
    // Rule 90: the next cell is the XOR of its left and right neighbors; the
    // middle bit of the packed pattern is ignored.
    let seed = vec![false, true, false, false, false];
    let mut automata = seeded(5, 90, seed);
    automata.advance();
    let generations = automata.generations();
    assert_eq!(generations.len(), 2);
    assert_eq!(generations[1], vec![true, false, true, false, false]);
}

#[test]
fn table_rule_answers_its_bits() {
    let rule = TableRule::new(90);
    assert!(!rule.apply(0b000));
    assert!(rule.apply(0b001));
    assert!(!rule.apply(0b010));
    assert!(rule.apply(0b011));
    assert!(rule.apply(0b100));
    assert!(!rule.apply(0b101));
    assert!(rule.apply(0b110));
    assert!(!rule.apply(0b111));
    // Patterns no three-neighbor kernel produces answer false.
    assert!(!rule.apply(8));
    assert!(!rule.apply(255));
}
