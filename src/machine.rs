use std::collections::HashSet;
use std::collections::VecDeque;
use vstd::prelude::*;
use crate::model::{config_wf, initial_config, read, rendered, run, step, tape_chars, ConfigView};
use crate::symbols::{Direction, State, Symbol};
use crate::transition::{Action, TransitionFunction};

verus! {

/// Relies on `IndexMut` of `VecDeque`: `tape[i] = s` replaces the cell at
/// index `i` and leaves the others as they were.
#[verifier::external_body]
fn write_cell(tape: &mut VecDeque<Symbol>, i: usize, s: Symbol)
    requires
        i < old(tape)@.len(),
    ensures
        final(tape)@ == old(tape)@.update(i as int, s),
{
    tape[i] = s;
}

/// Relies on `String::push`: appends the character at the end of the string.
#[verifier::external_body]
fn push_char(text: &mut String, c: char)
    ensures
        final(text)@ == old(text)@.push(c),
{
    text.push(c);
}

/// A copy of the tape with the same cells.
fn copy_tape(tape: &VecDeque<Symbol>) -> (r: VecDeque<Symbol>)
    ensures
        r@ == tape@,
{
    let r = tape.clone();
    assert(r@ =~= tape@);
    r
}

/// A deterministic single-tape Turing machine.
pub struct Machine {
    states: HashSet<State>,
    tape_alphabet: HashSet<Symbol>,
    blank_symbol: Symbol,
    input_alphabet: HashSet<Symbol>,
    initial_state: State,
    accepting_states: HashSet<State>,
    transition_function: TransitionFunction,
}

impl Machine {
    /// The transition function as a map.
    pub closed spec fn delta(&self) -> Map<(State, Symbol), Action> {
        self.transition_function@
    }

    /// The symbol that fills every cell not yet written.
    pub closed spec fn blank(&self) -> Symbol {
        self.blank_symbol
    }

    /// The state that every run starts in.
    pub closed spec fn initial(&self) -> State {
        self.initial_state
    }

    pub closed spec fn states(&self) -> HashSet<State> {
        self.states
    }

    pub closed spec fn tape_alphabet(&self) -> HashSet<Symbol> {
        self.tape_alphabet
    }

    pub closed spec fn input_alphabet(&self) -> HashSet<Symbol> {
        self.input_alphabet
    }

    pub closed spec fn accepting_states(&self) -> HashSet<State> {
        self.accepting_states
    }

    /// The transition function's entries have unique keys.
    pub closed spec fn wf(&self) -> bool {
        self.transition_function.wf()
    }

    /// Bundles the parts of a machine. Nothing is checked: the sets are kept
    /// for the caller, and only the transition function drives execution.
    pub fn new(
        states: HashSet<State>,
        tape_alphabet: HashSet<Symbol>,
        blank_symbol: Symbol,
        input_alphabet: HashSet<Symbol>,
        initial_state: State,
        accepting_states: HashSet<State>,
        transition_function: TransitionFunction,
    ) -> (r: Machine)
        requires
            transition_function.wf(),
        ensures
            r.wf(),
            r.delta() == transition_function@,
            r.blank() == blank_symbol,
            r.initial() == initial_state,
            r.states() == states,
            r.tape_alphabet() == tape_alphabet,
            r.input_alphabet() == input_alphabet,
            r.accepting_states() == accepting_states,
    {
        Machine {
            states,
            tape_alphabet,
            blank_symbol,
            input_alphabet,
            initial_state,
            accepting_states,
            transition_function,
        }
    }

    /// Starts a run on `tape`, in the initial state with the head on the
    /// leftmost cell. The run is lazy: each call of `next` takes one step.
    pub fn iter(&self, tape: VecDeque<Symbol>) -> (r: ConfigurationIterator<'_>)
        requires
            self.wf(),
            tape@.len() >= 1,
        ensures
            r.wf(),
            r.delta() == self.delta(),
            r.blank() == self.blank(),
            r.start() == initial_config(self.initial(), tape@),
            r.current() == r.start(),
            r.emitted() == Seq::<ConfigView>::empty(),
    {
        let ghost start = initial_config(self.initial_state, tape@);
        ConfigurationIterator {
            transition_function: &self.transition_function,
            configuration: Configuration { state: self.initial_state, head: 0, tape },
            blank_symbol: self.blank_symbol,
            start: Ghost(start),
            emitted: Ghost(Seq::empty()),
        }
    }
}

/// A snapshot of a run: the state, the head index, and the tape buffer.
pub struct Configuration {
    state: State,
    head: usize,
    tape: VecDeque<Symbol>,
}

impl View for Configuration {
    type V = ConfigView;

    closed spec fn view(&self) -> ConfigView {
        ConfigView { state: self.state, head: self.head as int, tape: self.tape@ }
    }
}

impl Configuration {
    pub fn state(&self) -> (r: State)
        ensures
            r == self@.state,
    {
        self.state
    }

    pub fn head(&self) -> (r: usize)
        ensures
            r == self@.head,
    {
        self.head
    }

    pub fn tape(&self) -> (r: &VecDeque<Symbol>)
        ensures
            r@ == self@.tape,
    {
        &self.tape
    }

    /// The text of the configuration: the symbols left of the head, the
    /// state's character, then the symbols from the head on.
    pub fn render(&self) -> (r: String)
        requires
            config_wf(self@),
        ensures
            r@ == rendered(self@),
    {
        let mut text = String::new();
        let n = self.tape.len();
        let ghost cells = tape_chars(self.tape@);
        let mut i: usize = 0;
        while i < self.head
            invariant
                i <= self.head < n,
                n == self.tape@.len(),
                cells == tape_chars(self.tape@),
                text@ == cells.take(i as int),
            decreases self.head - i,
        {
            push_char(&mut text, self.tape[i].s);
            assert(cells.take(i + 1) =~= cells.take(i as int).push(self.tape@[i as int].s));
            i = i + 1;
        }
        push_char(&mut text, self.state.s);
        let ghost prefix = text@;
        while i < n
            invariant
                self.head <= i <= n,
                n == self.tape@.len(),
                cells == tape_chars(self.tape@),
                prefix == cells.take(self.head as int).push(self.state.s),
                text@ == prefix + cells.subrange(self.head as int, i as int),
            decreases n - i,
        {
            push_char(&mut text, self.tape[i].s);
            assert(cells.subrange(self.head as int, i + 1) =~= cells.subrange(
                self.head as int,
                i as int,
            ).push(self.tape@[i as int].s));
            i = i + 1;
        }
        proof {
            let c = self@;
            assert(tape_chars(c.tape.take(c.head)) =~= cells.take(c.head));
            assert(tape_chars(c.tape.skip(c.head)) =~= cells.subrange(c.head, n as int));
            assert(text@ =~= rendered(c));
        }
        text
    }
}

/// A lazy run of a machine from a starting configuration. Each call of `next`
/// performs one step and hands out a copy of the resulting configuration; the
/// run ends the first time no transition applies.
pub struct ConfigurationIterator<'a> {
    transition_function: &'a TransitionFunction,
    configuration: Configuration,
    blank_symbol: Symbol,
    start: Ghost<ConfigView>,
    emitted: Ghost<Seq<ConfigView>>,
}

impl<'a> ConfigurationIterator<'a> {
    /// The transition function of the machine being run.
    pub closed spec fn delta(&self) -> Map<(State, Symbol), Action> {
        self.transition_function@
    }

    /// The blank symbol of the machine being run.
    pub closed spec fn blank(&self) -> Symbol {
        self.blank_symbol
    }

    /// The configuration that the run started from.
    pub closed spec fn start(&self) -> ConfigView {
        self.start@
    }

    /// The configurations handed out so far, in order.
    pub closed spec fn emitted(&self) -> Seq<ConfigView> {
        self.emitted@
    }

    /// The configuration that the next step starts from.
    pub closed spec fn current(&self) -> ConfigView {
        self.configuration@
    }

    /// Element `i` of what was handed out is the configuration after `i + 1`
    /// steps, and the current configuration is the last one handed out (or
    /// the start).
    pub closed spec fn wf(&self) -> bool {
        &&& self.transition_function.wf()
        &&& config_wf(self.current())
        &&& run(self.delta(), self.blank(), self.start(), self.emitted().len()) == Some(
            self.current(),
        )
        &&& forall|i: int|
            0 <= i < self.emitted().len() ==> run(self.delta(), self.blank(), self.start(), (i + 1) as nat)
                == Some(#[trigger] self.emitted()[i])
    }

    /// Takes one step: `None` where no transition applies to the current state
    /// and the symbol under the head (the run has halted, and stays so),
    /// otherwise the next configuration, which also becomes the current one.
    pub fn next(&mut self) -> (r: Option<Configuration>)
        requires
            old(self).wf(),
        ensures
            final(self).wf(),
            final(self).delta() == old(self).delta(),
            final(self).blank() == old(self).blank(),
            final(self).start() == old(self).start(),
            match r {
                Some(c) => {
                    &&& config_wf(c@)
                    &&& step(old(self).delta(), old(self).blank(), old(self).current()) == Some(c@)
                    &&& final(self).current() == c@
                    &&& final(self).emitted() == old(self).emitted().push(c@)
                },
                None => {
                    &&& step(old(self).delta(), old(self).blank(), old(self).current()) is None
                    &&& final(self).current() == old(self).current()
                    &&& final(self).emitted() == old(self).emitted()
                },
            },
    {
        let head = self.configuration.head;
        let symbol = self.configuration.tape[head];
        let action = match self.transition_function.get((self.configuration.state, symbol)) {
            Some(a) => a,
            None => {
                return None;
            },
        };
        let (next_state, write_symbol, direction) = action;

        let mut next_tape = copy_tape(&self.configuration.tape);
        write_cell(&mut next_tape, head, write_symbol);

        let next_head = match direction {
            Direction::Right => {
                if head == next_tape.len() - 1 {
                    next_tape.push_back(self.blank_symbol);
                }
                head + 1
            },
            Direction::Left => {
                if head == 0 {
                    next_tape.push_front(self.blank_symbol);
                    0
                } else {
                    head - 1
                }
            },
        };

        let handed_out = Configuration {
            state: next_state,
            head: next_head,
            tape: copy_tape(&next_tape),
        };
        let ghost old_emitted = self.emitted@;
        let ghost stepped = handed_out@;
        proof {
            assert(read(self.configuration@) == symbol);
            assert(stepped.tape =~= (step(self.delta(), self.blank_symbol, self.configuration@)->0).tape);
            let n = old_emitted.len();
            assert(run(self.delta(), self.blank_symbol, self.start@, n + 1) == Some(stepped));
        }
        self.configuration = Configuration { state: next_state, head: next_head, tape: next_tape };
        self.emitted = Ghost(old_emitted.push(stepped));
        proof {
            assert forall|i: int|
                0 <= i < self.emitted@.len() implies run(self.delta(), self.blank_symbol, self.start@, (i + 1) as nat)
                == Some(#[trigger] self.emitted@[i]) by {
                if i < old_emitted.len() {
                    assert(self.emitted@[i] == old_emitted[i]);
                }
            }
        }
        Some(handed_out)
    }
}

/// A machine with no transition for its initial state and the first cell of
/// the tape produces no configuration at all: the first step of a run that
/// `iter` starts on that tape already halts, and so does every later one.
pub proof fn lemma_no_first_transition(m: &Machine, tape: Seq<Symbol>)
    requires
        tape.len() >= 1,
        !m.delta().contains_key((m.initial(), tape[0])),
    ensures
        step(m.delta(), m.blank(), initial_config(m.initial(), tape)) is None,
{
    crate::model::lemma_halt_without_transition(
        m.delta(),
        m.blank(),
        initial_config(m.initial(), tape),
    );
}

/// Two runs of the same transition function and blank symbol from the same
/// starting configuration hand out the same configurations, element for
/// element, as far as both have gone; after equally many elements they stand
/// at the same configuration.
pub proof fn lemma_runs_agree(a: &ConfigurationIterator, b: &ConfigurationIterator)
    requires
        a.wf(),
        b.wf(),
        a.delta() == b.delta(),
        a.blank() == b.blank(),
        a.start() == b.start(),
    ensures
        forall|i: int|
            0 <= i < a.emitted().len() && 0 <= i < b.emitted().len() ==> #[trigger] a.emitted()[i]
                == b.emitted()[i],
        a.emitted().len() == b.emitted().len() ==> a.emitted() == b.emitted() && a.current()
            == b.current(),
{
    assert forall|i: int|
        0 <= i < a.emitted().len() && 0 <= i < b.emitted().len() implies #[trigger] a.emitted()[i]
        == b.emitted()[i] by {
        assert(run(a.delta(), a.blank(), a.start(), (i + 1) as nat) == Some(a.emitted()[i]));
        assert(run(b.delta(), b.blank(), b.start(), (i + 1) as nat) == Some(b.emitted()[i]));
    }
    if a.emitted().len() == b.emitted().len() {
        assert(a.emitted() =~= b.emitted());
    }
}

} // verus!
