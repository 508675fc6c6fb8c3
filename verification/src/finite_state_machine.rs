//! A small byte-level finite state machine, historically used to
//! recognize directive lines; kept as an independent test oracle for
//! the byte-scanner production path. Character acceptance is a tagged
//! enum of predicate kinds rather than a callback.

use vstd::prelude::*;

verus! {

/// A predicate over one input byte.
pub enum AcceptedCharacterPattern {
    /// A space, tab, line feed or carriage return.
    Whitespace,
    /// Any byte of the given set.
    Literal(Vec<u8>),
    /// Exactly the given byte.
    SingleCharacter(u8),
    /// An ASCII decimal digit.
    Digit,
    /// Any byte at all.
    AnyCharacter,
}

/// Whitespace as this machine knows it.
pub open spec fn spec_is_whitespace(c: u8) -> bool {
    c == 32u8 || c == 9u8 || c == 10u8 || c == 13u8
}

/// An ASCII decimal digit.
pub open spec fn spec_is_digit(c: u8) -> bool {
    48 <= c && c <= 57
}

/// Whether a pattern accepts a byte.
pub open spec fn spec_pattern_accepts(p: &AcceptedCharacterPattern, c: u8) -> bool {
    match p {
        AcceptedCharacterPattern::Whitespace => spec_is_whitespace(c),
        AcceptedCharacterPattern::Literal(l) => l@.contains(c),
        AcceptedCharacterPattern::SingleCharacter(ch) => *ch == c,
        AcceptedCharacterPattern::Digit => spec_is_digit(c),
        AcceptedCharacterPattern::AnyCharacter => true,
    }
}

/// Decides whether a pattern accepts a byte.
pub fn pattern_accepts(p: &AcceptedCharacterPattern, c: u8) -> (r: bool)
    ensures
        r == spec_pattern_accepts(p, c),
{
    match p {
        AcceptedCharacterPattern::Whitespace => {
            c == 32u8 || c == 9u8 || c == 10u8 || c == 13u8
        },
        AcceptedCharacterPattern::Literal(l) => {
            let n = l.len();
            let mut i: usize = 0;
            let mut found = false;
            while i < n
                invariant
                    0 <= i <= n,
                    n == l@.len(),
                    found == exists|j: int| 0 <= j < i && l@[j] == c,
                decreases n - i,
            {
                if l[i] == c {
                    found = true;
                }
                i = i + 1;
            }
            proof {
                assert(found == l@.contains(c));
            }
            found
        },
        AcceptedCharacterPattern::SingleCharacter(ch) => *ch == c,
        AcceptedCharacterPattern::Digit => 48 <= c && c <= 57,
        AcceptedCharacterPattern::AnyCharacter => true,
    }
}

/// One transition: the pattern that takes it and the state it leads to.
struct StateTransition {
    accepted_chars: AcceptedCharacterPattern,
    target_state: usize,
}

/// The transition table: for each (source, target) pair, the patterns
/// leading from the source to the target.
pub struct StateTransitionCollection {
    transition_count: usize,
    state_transitions: Vec<Vec<StateTransition>>,
}

impl StateTransitionCollection {
    /// The number of states the table was built for.
    pub closed spec fn spec_count(&self) -> int {
        self.transition_count as int
    }

    /// A full table whose transitions all stay inside the state range.
    pub closed spec fn wf(&self) -> bool {
        &&& self.state_transitions@.len() == self.transition_count * self.transition_count
        &&& forall|i: int, t: int|
            0 <= i < self.state_transitions@.len() && 0 <= t
                < self.state_transitions@[i]@.len() ==> (
            #[trigger] self.state_transitions@[i]@[t].target_state as int)
                < self.transition_count as int
    }

    /// An empty table for the given number of states.
    pub fn new(transition_count: usize) -> (stc: StateTransitionCollection)
        requires
            transition_count * transition_count <= usize::MAX,
        ensures
            stc.wf(),
            stc.spec_count() == transition_count,
    {
        let total = transition_count * transition_count;
        let mut table: Vec<Vec<StateTransition>> = Vec::new();
        let mut i: usize = 0;
        while i < total
            invariant
                0 <= i <= total,
                table@.len() == i,
                forall|j: int, t: int|
                    0 <= j < table@.len() && 0 <= t < table@[j]@.len() ==> (
                    #[trigger] table@[j]@[t].target_state as int) < 0,
            decreases total - i,
        {
            table.push(Vec::new());
            i = i + 1;
        }
        StateTransitionCollection { transition_count, state_transitions: table }
    }

    /// The transitions from `src` to `target`.
    fn get_transition(&self, src: usize, target: usize) -> (r: &Vec<StateTransition>)
        requires
            self.wf(),
            0 <= src as int * self.spec_count() + target < self.spec_count() * self.spec_count(),
        ensures
            r@ == self.state_transitions@[src as int * self.spec_count() + target as int]@,
    {
        let len = self.state_transitions.len();
        &self.state_transitions[src * self.transition_count + target]
    }

    /// Adds a transition from `src` to `target` taken on the given
    /// pattern.
    pub fn set_transition(
        &mut self,
        src: usize,
        target: usize,
        accepted_pattern: AcceptedCharacterPattern,
    )
        requires
            old(self).wf(),
            src < old(self).spec_count(),
            target < old(self).spec_count(),
        ensures
            final(self).wf(),
            final(self).spec_count() == old(self).spec_count(),
    {
        proof {
            vstd::arithmetic::mul::lemma_mul_inequality(
                src as int + 1,
                self.transition_count as int,
                self.transition_count as int,
            );
            vstd::arithmetic::mul::lemma_mul_is_distributive_add_other_way(
                self.transition_count as int,
                src as int,
                1,
            );
        }
        let len = self.state_transitions.len();
        let slot = src * self.transition_count + target;
        let list = &mut self.state_transitions[slot];
        list.push(StateTransition { accepted_chars: accepted_pattern, target_state: target });
    }
}

/// A finite state machine over bytes, started in state 0.
pub struct FiniteStateMachine {
    accept_on_first_accepting_state: bool,
    state_count: usize,
    state_transitions: StateTransitionCollection,
    accepting_states: Vec<usize>,
}

impl FiniteStateMachine {
    /// The machine's number of states.
    pub closed spec fn spec_state_count(&self) -> int {
        self.state_count as int
    }

    /// The machine's transition table fits its state count.
    pub closed spec fn wf(&self) -> bool {
        &&& self.state_transitions.wf()
        &&& self.state_count == self.state_transitions.spec_count()
    }

    /// Whether a state is accepting.
    pub closed spec fn spec_is_accepting(&self, state: int) -> bool {
        exists|k: int|
            0 <= k < self.accepting_states@.len() && (#[trigger] self.accepting_states@[k]) as int
                == state
    }

    /// The target of the first transition out of `cur`, in scan order
    /// from state `j` on, whose pattern accepts `c`.
    spec fn spec_find_step_from(&self, cur: int, j: int, c: u8) -> Option<int>
        decreases self.state_count - j,
    {
        if j < 0 || j >= self.state_count {
            None
        } else {
            let list = self.state_transitions.state_transitions@[cur * self.state_count + j];
            match spec_find_in_list(list@, 0, c) {
                Some(t) => Some(t),
                None => self.spec_find_step_from(cur, j + 1, c),
            }
        }
    }

    /// One step of the machine on byte `c` from state `cur`.
    pub closed spec fn spec_step(&self, cur: int, c: u8) -> Option<int> {
        self.spec_find_step_from(cur, 0, c)
    }

    /// The machine's verdict on the input from state `cur` and
    /// position `i` on: reject when a byte has no transition, accept
    /// early on reaching an accepting state if so configured, else
    /// accept exactly when the final state is accepting.
    pub closed spec fn spec_run(&self, cur: int, input: Seq<u8>, i: int) -> bool
        decreases input.len() - i,
    {
        if i < 0 || i >= input.len() {
            self.spec_is_accepting(cur)
        } else {
            match self.spec_step(cur, input[i]) {
                None => false,
                Some(next) => if self.accept_on_first_accepting_state && self.spec_is_accepting(
                    next,
                ) {
                    true
                } else {
                    self.spec_run(next, input, i + 1)
                },
            }
        }
    }

    /// Whether the machine accepts the input.
    pub open spec fn spec_test(&self, input: Seq<u8>) -> bool {
        self.spec_run(0, input, 0)
    }

    /// Builds a machine from its table and accepting states.
    pub fn new(
        state_count: usize,
        state_transitions: StateTransitionCollection,
        accept_on_first_accepting_state: bool,
        accepting_states: Vec<usize>,
    ) -> (m: FiniteStateMachine)
        requires
            state_transitions.wf(),
            state_count == state_transitions.spec_count(),
        ensures
            m.wf(),
            m.spec_state_count() == state_count,
    {
        FiniteStateMachine {
            accept_on_first_accepting_state,
            state_count,
            state_transitions,
            accepting_states,
        }
    }

    /// Whether a state is accepting.
    fn is_accepting_state(&self, state: usize) -> (r: bool)
        ensures
            r == self.spec_is_accepting(state as int),
    {
        let n = self.accepting_states.len();
        let mut k: usize = 0;
        let mut found = false;
        while k < n
            invariant
                0 <= k <= n,
                n == self.accepting_states@.len(),
                found == exists|j: int|
                    0 <= j < k && (#[trigger] self.accepting_states@[j]) as int == state as int,
            decreases n - k,
        {
            if self.accepting_states[k] == state {
                found = true;
            }
            k = k + 1;
        }
        found
    }

    /// The target of the first transition out of `cur` accepting `c`,
    /// in scan order.
    fn find_step(&self, cur: usize, c: u8) -> (r: Option<usize>)
        requires
            self.wf(),
            (cur as int) < self.state_count as int,
        ensures
            match r {
                Some(next) => self.spec_step(cur as int, c) == Some(next as int) && (next as int)
                    < self.state_count as int,
                None => self.spec_step(cur as int, c) is None,
            },
    {
        let count = self.state_count;
        let mut j: usize = 0;
        while j < count
            invariant
                0 <= j <= count,
                count == self.state_count,
                self.wf(),
                (cur as int) < count as int,
                self.spec_find_step_from(cur as int, 0, c) == self.spec_find_step_from(
                    cur as int,
                    j as int,
                    c,
                ),
            decreases count - j,
        {
            proof {
                vstd::arithmetic::mul::lemma_mul_inequality(
                    cur as int + 1,
                    count as int,
                    count as int,
                );
                vstd::arithmetic::mul::lemma_mul_is_distributive_add_other_way(
                    count as int,
                    cur as int,
                    1,
                );
            }
            let list = self.state_transitions.get_transition(cur, j);
            let ln = list.len();
            let mut t: usize = 0;
            while t < ln
                invariant
                    0 <= t <= ln,
                    ln == list@.len(),
                    self.wf(),
                    count == self.state_count,
                    (cur as int) < count as int,
                    (j as int) < count as int,
                    list@ == self.state_transitions.state_transitions@[cur as int * count as int
                        + j as int]@,
                    self.spec_find_step_from(cur as int, 0, c) == self.spec_find_step_from(
                        cur as int,
                        j as int,
                        c,
                    ),
                    spec_find_in_list(list@, 0, c) == spec_find_in_list(list@, t as int, c),
                decreases ln - t,
            {
                if pattern_accepts(&list[t].accepted_chars, c) {
                    let next = list[t].target_state;
                    proof {
                        vstd::arithmetic::mul::lemma_mul_inequality(
                            cur as int + 1,
                            count as int,
                            count as int,
                        );
                        vstd::arithmetic::mul::lemma_mul_is_distributive_add_other_way(
                            count as int,
                            cur as int,
                            1,
                        );
                        assert(spec_find_in_list(list@, t as int, c) == Some(next as int));
                        assert(self.state_transitions.state_transitions@[cur as int * count as int
                            + j as int]@[t as int].target_state == next);
                    }
                    return Some(next);
                }
                t = t + 1;
            }
            j = j + 1;
        }
        None
    }

    /// Runs the machine over the input, starting in state 0.
    pub fn test(&self, input: &[u8]) -> (r: bool)
        requires
            self.wf(),
            self.spec_state_count() > 0,
        ensures
            r == self.spec_test(input@),
    {
        let mut current_state: usize = 0;
        let n = input.len();
        let mut i: usize = 0;
        while i < n
            invariant
                0 <= i <= n,
                n == input@.len(),
                self.wf(),
                self.state_count > 0,
                (current_state as int) < self.state_count as int,
                self.spec_test(input@) == self.spec_run(current_state as int, input@, i as int),
            decreases n - i,
        {
            match self.find_step(current_state, input[i]) {
                None => {
                    return false;
                },
                Some(next) => {
                    if self.accept_on_first_accepting_state && self.is_accepting_state(next) {
                        return true;
                    }
                    current_state = next;
                },
            }
            i = i + 1;
        }
        self.is_accepting_state(current_state)
    }

    /// An ASCII decimal digit.
    pub fn is_digit(c: u8) -> (r: bool)
        ensures
            r == spec_is_digit(c),
    {
        48 <= c && c <= 57
    }

    /// A space, tab, line feed or carriage return.
    pub fn is_whitespace(c: u8) -> (r: bool)
        ensures
            r == spec_is_whitespace(c),
    {
        c == 32u8 || c == 9u8 || c == 10u8 || c == 13u8
    }

    /// The whitespace pattern.
    pub fn whitespace_pattern() -> (p: AcceptedCharacterPattern)
        ensures
            forall|c: u8| spec_pattern_accepts(&p, c) == spec_is_whitespace(c),
    {
        AcceptedCharacterPattern::Whitespace
    }

    /// A pattern accepting any byte of the given set.
    pub fn literal_pattern(characters: Vec<u8>) -> (p: AcceptedCharacterPattern)
        ensures
            forall|c: u8| spec_pattern_accepts(&p, c) == characters@.contains(c),
    {
        AcceptedCharacterPattern::Literal(characters)
    }

    /// A pattern accepting exactly one byte.
    pub fn single_character_pattern(ch: u8) -> (p: AcceptedCharacterPattern)
        ensures
            forall|c: u8| spec_pattern_accepts(&p, c) == (c == ch),
    {
        AcceptedCharacterPattern::SingleCharacter(ch)
    }

    /// A pattern accepting any decimal digit.
    pub fn digit_pattern() -> (p: AcceptedCharacterPattern)
        ensures
            forall|c: u8| spec_pattern_accepts(&p, c) == spec_is_digit(c),
    {
        AcceptedCharacterPattern::Digit
    }

    /// A pattern accepting every byte.
    pub fn any_character_pattern() -> (p: AcceptedCharacterPattern)
        ensures
            forall|c: u8| spec_pattern_accepts(&p, c),
    {
        AcceptedCharacterPattern::AnyCharacter
    }
}

/// The target of the first transition in the list, from index `t` on,
/// whose pattern accepts `c`.
spec fn spec_find_in_list(list: Seq<StateTransition>, t: int, c: u8) -> Option<int>
    decreases list.len() - t,
{
    if t < 0 || t >= list.len() {
        None
    } else if spec_pattern_accepts(&list[t].accepted_chars, c) {
        Some(list[t].target_state as int)
    } else {
        spec_find_in_list(list, t + 1, c)
    }
}

} // verus!
