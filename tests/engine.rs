use std::collections::HashSet;
use std::collections::VecDeque;

use turingrs::Configuration;
use turingrs::Direction;
use turingrs::Machine;
use turingrs::State;
use turingrs::Symbol;
use turingrs::TransitionFunction;

fn machine_with(
    initial_state: State,
    blank_symbol: Symbol,
    transition_function: TransitionFunction,
) -> Machine {
    Machine::new(
        HashSet::new(),
        HashSet::new(),
        blank_symbol,
        HashSet::new(),
        initial_state,
        HashSet::new(),
        transition_function,
    )
}

fn collect(machine: &Machine, tape: VecDeque<Symbol>, limit: usize) -> Vec<Configuration> {
    let mut it = machine.iter(tape);
    let mut out = Vec::new();
    while out.len() < limit {
        match it.next() {
            Some(c) => out.push(c),
            None => break,
        }
    }
    out
}

fn tape_of(text: &str) -> VecDeque<Symbol> {
    text.chars().map(Symbol::new).collect()
}

fn tape_text(c: &Configuration) -> String {
    c.tape().iter().map(|s| s.s).collect()
}

#[test]
fn busy_beaver() {
    // Test for the three-state busy beaver Turing machine.

    // States
    let a = State::new('a');
    let b = State::new('b');
    let c = State::new('c');
    let halt = State::new('h');
    let mut states = HashSet::new();
    states.insert(a);
    states.insert(b);
    states.insert(c);
    states.insert(halt);

    // Tape alphabet
    let zero = Symbol::new('0');
    let one = Symbol::new('1');
    let mut tape_alphabet = HashSet::new();
    tape_alphabet.insert(zero);
    tape_alphabet.insert(one);

    // Blank symbol
    let blank_symbol = zero;

    // Input symbols
    let mut input_alphabet = HashSet::new();
    input_alphabet.insert(one);

    // Initial state
    let initial_state = a;

    // Accepting states
    let mut accepting_states = HashSet::new();
    accepting_states.insert(halt);

    // Transition function
    let mut transition_function = TransitionFunction::new();
    transition_function.insert((a, zero), (b, one, Direction::Right));
    transition_function.insert((a, one), (c, one, Direction::Left));
    transition_function.insert((b, zero), (a, one, Direction::Left));
    transition_function.insert((b, one), (b, one, Direction::Right));
    transition_function.insert((c, zero), (b, one, Direction::Left));
    transition_function.insert((c, one), (halt, one, Direction::Right));

    // Machine
    let machine = Machine::new(
        states,
        tape_alphabet,
        blank_symbol,
        input_alphabet,
        initial_state,
        accepting_states,
        transition_function,
    );

    // Run on the initially empty tape and collect the configurations.
    let mut tape = VecDeque::new();
    tape.push_back(zero);
    let mut it = machine.iter(tape);
    let mut configurations: Vec<Configuration> = Vec::new();
    while let Some(configuration) = it.next() {
        configurations.push(configuration);
    }

    // Turn the configurations into a string with one
    // configuration per line.
    let tableau: Vec<String> = configurations.iter().map(|x| x.render()).collect();
    let actual = tableau.join("\n");
    let expected = "
1b0
a11
c011
b0111
a01111
1b1111
11b111
111b11
1111b1
11111b0
1111a11
111c111
1111h11
"
    .trim();
    assert_eq!(actual, expected);
}

#[test]
fn roundtrip() {
    let expected = "
    abch
    01
    0
    1
    a
    a0b1r
    a1c1l
    b0a1l
    b1b1r
    c0b1l
    c1h1r
"
    .trim_start();

    let actual: String =
        serde_json::from_str(&serde_json::to_string(expected).unwrap()).unwrap();
    assert_eq!(actual, expected);
}

fn busy_beaver_machine() -> Machine {
    let (a, b, c, h) = (State::new('a'), State::new('b'), State::new('c'), State::new('h'));
    let (zero, one) = (Symbol::new('0'), Symbol::new('1'));
    let mut tf = TransitionFunction::new();
    tf.insert((a, zero), (b, one, Direction::Right));
    tf.insert((a, one), (c, one, Direction::Left));
    tf.insert((b, zero), (a, one, Direction::Left));
    tf.insert((b, one), (b, one, Direction::Right));
    tf.insert((c, zero), (b, one, Direction::Left));
    tf.insert((c, one), (h, one, Direction::Right));
    machine_with(a, zero, tf)
}

#[test]
fn reruns_give_identical_sequences() {
    let machine = busy_beaver_machine();
    let first = collect(&machine, tape_of("0"), 100);
    let second = collect(&machine, tape_of("0"), 100);
    assert_eq!(first.len(), 13);
    assert_eq!(first.len(), second.len());
    for (x, y) in first.iter().zip(second.iter()) {
        assert_eq!(x.state(), y.state());
        assert_eq!(x.head(), y.head());
        assert_eq!(x.tape(), y.tape());
    }
}

#[test]
fn tape_grows_by_at_most_one_cell_per_step() {
    let machine = busy_beaver_machine();
    let configurations = collect(&machine, tape_of("0"), 100);
    let mut previous = 1;
    for c in configurations.iter() {
        let len = c.tape().len();
        assert!(len == previous || len == previous + 1);
        previous = len;
    }
    assert_eq!(previous, 6);
}

#[test]
fn left_move_at_left_edge_prepends_blank() {
    let q = State::new('q');
    let (blank, x, y) = (Symbol::new('_'), Symbol::new('x'), Symbol::new('y'));
    let mut tf = TransitionFunction::new();
    tf.insert((q, x), (q, y, Direction::Left));
    let machine = machine_with(q, blank, tf);
    let configurations = collect(&machine, tape_of("xzw"), 10);
    assert_eq!(configurations.len(), 1);
    let c = &configurations[0];
    assert_eq!(c.head(), 0);
    assert_eq!(tape_text(c), "_yzw");
    assert_eq!(c.render(), "q_yzw");
}

#[test]
fn right_move_at_right_edge_appends_blank() {
    let q = State::new('q');
    let p = State::new('p');
    let (blank, x, y) = (Symbol::new('_'), Symbol::new('x'), Symbol::new('y'));
    let mut tf = TransitionFunction::new();
    tf.insert((q, x), (p, y, Direction::Right));
    let machine = machine_with(q, blank, tf);
    let configurations = collect(&machine, tape_of("x"), 10);
    assert_eq!(configurations.len(), 1);
    let c = &configurations[0];
    assert_eq!(c.state(), p);
    assert_eq!(c.head(), 1);
    assert_eq!(tape_text(c), "y_");
    assert_eq!(c.render(), "yp_");
}

#[test]
fn moves_inside_the_buffer_do_not_grow_it() {
    let q = State::new('q');
    let r = State::new('r');
    let (blank, x) = (Symbol::new('_'), Symbol::new('x'));
    let mut tf = TransitionFunction::new();
    tf.insert((q, x), (r, blank, Direction::Right));
    tf.insert((r, x), (q, x, Direction::Left));
    let machine = machine_with(q, blank, tf);
    let configurations = collect(&machine, tape_of("xx"), 10);
    let rendered: Vec<String> = configurations.iter().map(|c| c.render()).collect();
    assert_eq!(rendered, vec!["_rx", "q_x"]);
}

#[test]
fn no_transition_for_initial_pair_gives_empty_sequence() {
    let q = State::new('q');
    let (blank, x) = (Symbol::new('0'), Symbol::new('1'));
    let mut tf = TransitionFunction::new();
    tf.insert((q, x), (q, x, Direction::Right));
    let machine = machine_with(q, blank, tf);
    let mut it = machine.iter(tape_of("0"));
    assert!(it.next().is_none());
    assert!(it.next().is_none());
}

#[test]
fn empty_transition_function_on_blank_tape_gives_empty_sequence() {
    let blank = Symbol::new('0');
    let machine = machine_with(State::new('a'), blank, TransitionFunction::new());
    let mut tape = VecDeque::new();
    tape.push_back(blank);
    assert!(collect(&machine, tape, 10).is_empty());
}

#[test]
fn accepting_state_does_not_stop_the_run() {
    let a = State::new('a');
    let h = State::new('h');
    let (zero, one) = (Symbol::new('0'), Symbol::new('1'));
    let mut tf = TransitionFunction::new();
    tf.insert((a, zero), (h, one, Direction::Right));
    tf.insert((h, zero), (h, one, Direction::Right));
    let mut accepting = HashSet::new();
    accepting.insert(h);
    let machine = Machine::new(HashSet::new(), HashSet::new(), zero, HashSet::new(), a, accepting, tf);
    let rendered: Vec<String> = collect(&machine, tape_of("0"), 3).iter().map(|c| c.render()).collect();
    assert_eq!(rendered, vec!["1h0", "11h0", "111h0"]);
}

#[test]
fn rendering_locates_state_at_head() {
    let machine = busy_beaver_machine();
    for c in collect(&machine, tape_of("0"), 100).iter() {
        let text: Vec<char> = c.render().chars().collect();
        let marker = c.state().s;
        let positions: Vec<usize> =
            (0..text.len()).filter(|&i| text[i] == marker).collect();
        assert_eq!(positions, vec![c.head()]);
        let mut rest = text.clone();
        rest.remove(c.head());
        let rest: String = rest.into_iter().collect();
        assert_eq!(rest, tape_text(c));
    }
}

#[test]
fn transition_function_insert_replaces_and_get_looks_up() {
    let q = State::new('q');
    let p = State::new('p');
    let (x, y) = (Symbol::new('x'), Symbol::new('y'));
    let mut tf = TransitionFunction::new();
    assert!(tf.get((q, x)).is_none());
    assert!(tf.insert((q, x), (p, y, Direction::Left)).is_none());
    assert!(tf.insert((q, y), (q, x, Direction::Right)).is_none());
    let replaced = tf.insert((q, x), (q, y, Direction::Right));
    assert_eq!(replaced, Some((p, y, Direction::Left)));
    assert_eq!(tf.get((q, x)), Some((q, y, Direction::Right)));
    assert_eq!(tf.get((q, y)), Some((q, x, Direction::Right)));
    assert!(tf.get((p, x)).is_none());
}
