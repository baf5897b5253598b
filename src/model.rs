use vstd::prelude::*;
use crate::symbols::{Direction, State, Symbol};
use crate::transition::Action;

verus! {

/// The mathematical content of a configuration: the current state, the head
/// index into the tape buffer, and the buffer's cells from left to right.
pub ghost struct ConfigView {
    pub state: State,
    pub head: int,
    pub tape: Seq<Symbol>,
}

/// The buffer holds at least one cell and the head indexes one of them.
pub open spec fn config_wf(c: ConfigView) -> bool {
    0 <= c.head < c.tape.len()
}

/// The first configuration of a run: the initial state, the head on the
/// leftmost cell of the supplied tape.
pub open spec fn initial_config(initial: State, tape: Seq<Symbol>) -> ConfigView {
    ConfigView { state: initial, head: 0, tape }
}

/// Moves the head one cell in `dir`, adding a blank cell at the end of the
/// buffer that the head would otherwise leave. Returns the new head and buffer.
pub open spec fn move_head(tape: Seq<Symbol>, head: int, dir: Direction, blank: Symbol) -> (int, Seq<Symbol>) {
    match dir {
        Direction::Right => if head == tape.len() - 1 {
            (head + 1, tape.push(blank))
        } else {
            (head + 1, tape)
        },
        Direction::Left => if head == 0 {
            (0, seq![blank] + tape)
        } else {
            (head - 1, tape)
        },
    }
}

/// The symbol under the head.
pub open spec fn read(c: ConfigView) -> Symbol {
    c.tape[c.head]
}

/// One step of the machine whose transition function is `delta`: `None` where
/// `delta` has no entry for the current state and the symbol under the head,
/// otherwise the configuration after writing, moving and changing state.
pub open spec fn step(delta: Map<(State, Symbol), Action>, blank: Symbol, c: ConfigView) -> Option<ConfigView> {
    let key = (c.state, read(c));
    if delta.contains_key(key) {
        let action = delta[key];
        let moved = move_head(c.tape.update(c.head, action.1), c.head, action.2, blank);
        Some(ConfigView { state: action.0, head: moved.0, tape: moved.1 })
    } else {
        None
    }
}

/// The configuration after `n` steps from `c`, or `None` where the machine
/// halted before taking them.
pub open spec fn run(delta: Map<(State, Symbol), Action>, blank: Symbol, c: ConfigView, n: nat) -> Option<ConfigView>
    decreases n,
{
    if n == 0 {
        Some(c)
    } else {
        match run(delta, blank, c, (n - 1) as nat) {
            Some(prev) => step(delta, blank, prev),
            None => None,
        }
    }
}

/// The characters of a stretch of tape.
pub open spec fn tape_chars(tape: Seq<Symbol>) -> Seq<char> {
    tape.map_values(|sym: Symbol| sym.s)
}

/// The text of a configuration: the cells left of the head, the state's
/// character, then the cells from the head on.
pub open spec fn rendered(c: ConfigView) -> Seq<char> {
    tape_chars(c.tape.take(c.head)) + seq![c.state.s] + tape_chars(c.tape.skip(c.head))
}

/// A step keeps a configuration well formed, and the buffer either keeps its
/// length or gains exactly one cell: it never shrinks.
pub proof fn lemma_step_tape_growth(delta: Map<(State, Symbol), Action>, blank: Symbol, c: ConfigView)
    requires
        config_wf(c),
        step(delta, blank, c) is Some,
    ensures
        config_wf(step(delta, blank, c)->0),
        c.tape.len() <= (step(delta, blank, c)->0).tape.len() <= c.tape.len() + 1,
{
}

/// A left move from the leftmost cell adds a blank cell on the left; every
/// earlier cell, as written by the step, moves one index to the right, and the
/// head stays on index zero, the new cell.
pub proof fn lemma_left_edge(delta: Map<(State, Symbol), Action>, blank: Symbol, c: ConfigView)
    requires
        config_wf(c),
        c.head == 0,
        delta.contains_key((c.state, read(c))),
        delta[(c.state, read(c))].2 == Direction::Left,
    ensures
        ({
            let next = step(delta, blank, c)->0;
            let written = c.tape.update(0, delta[(c.state, read(c))].1);
            &&& next.head == 0
            &&& next.tape.len() == c.tape.len() + 1
            &&& next.tape[0] == blank
            &&& forall|i: int| 0 <= i < c.tape.len() ==> next.tape[i + 1] == #[trigger] written[i]
        }),
{
}

/// A right move from the rightmost cell adds a blank cell on the right, which
/// the head then stands on; the cells before it are those the step wrote.
pub proof fn lemma_right_edge(delta: Map<(State, Symbol), Action>, blank: Symbol, c: ConfigView)
    requires
        config_wf(c),
        c.head == c.tape.len() - 1,
        delta.contains_key((c.state, read(c))),
        delta[(c.state, read(c))].2 == Direction::Right,
    ensures
        ({
            let next = step(delta, blank, c)->0;
            &&& next.head == c.tape.len()
            &&& next.tape.len() == c.tape.len() + 1
            &&& next.tape.last() == blank
            &&& next.tape.take(c.tape.len() as int) == c.tape.update(
                c.head,
                delta[(c.state, read(c))].1,
            )
        }),
{
    let next = step(delta, blank, c)->0;
    assert(next.tape.take(c.tape.len() as int) =~= c.tape.update(
        c.head,
        delta[(c.state, read(c))].1,
    ));
}

/// A state with no transition for the symbol under the head ends the run: no
/// configuration follows.
pub proof fn lemma_halt_without_transition(delta: Map<(State, Symbol), Action>, blank: Symbol, c: ConfigView)
    requires
        config_wf(c),
        !delta.contains_key((c.state, read(c))),
    ensures
        step(delta, blank, c) is None,
        forall|n: nat| n > 0 ==> #[trigger] run(delta, blank, c, n) is None,
{
    assert forall|n: nat| n > 0 implies #[trigger] run(delta, blank, c, n) is None by {
        lemma_run_after_halt(delta, blank, c, n);
    }
}

proof fn lemma_run_after_halt(delta: Map<(State, Symbol), Action>, blank: Symbol, c: ConfigView, n: nat)
    requires
        n > 0,
        step(delta, blank, c) is None,
    ensures
        run(delta, blank, c, n) is None,
    decreases n,
{
    if n > 1 {
        lemma_run_after_halt(delta, blank, c, (n - 1) as nat);
    } else {
        assert(run(delta, blank, c, 0) == Some(c));
    }
}

/// Where the state's character occurs in no cell, the text of a configuration
/// gives it back: the character occurs at exactly one index, that index is the
/// head, and the text without it is the tape.
pub proof fn lemma_render_round_trip(c: ConfigView)
    requires
        config_wf(c),
        !tape_chars(c.tape).contains(c.state.s),
    ensures
        ({
            let text = rendered(c);
            &&& text.len() == c.tape.len() + 1
            &&& text[c.head] == c.state.s
            &&& forall|k: int| 0 <= k < text.len() && text[k] == c.state.s ==> k == c.head
            &&& text.remove(c.head) == tape_chars(c.tape)
        }),
{
    let text = rendered(c);
    let all = tape_chars(c.tape);
    assert(tape_chars(c.tape.take(c.head)) =~= all.take(c.head));
    assert(tape_chars(c.tape.skip(c.head)) =~= all.skip(c.head));
    assert forall|k: int| 0 <= k < text.len() && text[k] == c.state.s implies k == c.head by {
        if k < c.head {
            assert(text[k] == all[k]);
        } else if k > c.head {
            assert(text[k] == all[k - 1]);
        }
    }
    assert(text.remove(c.head) =~= all);
}

} // verus!
