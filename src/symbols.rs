use vstd::prelude::*;

verus! {

/// A control state of a machine, identified by a single character.
#[derive(PartialEq, Eq, Structural, Hash, Clone, Copy, Debug)]
pub struct State {
    pub s: char,
}

impl State {
    pub fn new(s: char) -> (r: State)
        ensures
            r.s == s,
    {
        State { s }
    }
}

/// A tape symbol, identified by a single character.
#[derive(PartialEq, Eq, Structural, Hash, Clone, Copy, Debug)]
pub struct Symbol {
    pub s: char,
}

impl Symbol {
    pub fn new(s: char) -> (r: Symbol)
        ensures
            r.s == s,
    {
        Symbol { s }
    }
}

/// The way the head moves after a symbol has been written.
#[derive(PartialEq, Eq, Structural, Clone, Copy, Debug)]
pub enum Direction {
    Left,
    Right,
}

} // verus!
