use objparser::finite_state_machine::{
    pattern_accepts, AcceptedCharacterPattern, FiniteStateMachine, StateTransitionCollection,
};

/// The historical `v `-line recognizer: optional leading whitespace,
/// the letter, then one whitespace byte.
fn directive_recognizer(letter: u8) -> FiniteStateMachine {
    let mut stc = StateTransitionCollection::new(3);
    stc.set_transition(0, 0, FiniteStateMachine::whitespace_pattern());
    stc.set_transition(0, 1, FiniteStateMachine::single_character_pattern(letter));
    stc.set_transition(1, 2, FiniteStateMachine::whitespace_pattern());
    FiniteStateMachine::new(3, stc, true, vec![2])
}

#[test]
fn vertex_recognizer_accepts_vertex_lines() {
    let m = directive_recognizer(b'v');
    assert!(m.test(b"v 1.0 2.0 3.0"));
    assert!(m.test(b"   v 1 2 3"));
    assert!(!m.test(b"vt 1 2"));
    assert!(!m.test(b"f 1 2 3"));
    assert!(!m.test(b"v"));
    assert!(!m.test(b""));
}

#[test]
fn face_recognizer_accepts_face_lines() {
    let m = directive_recognizer(b'f');
    assert!(m.test(b"f 1 2 3"));
    assert!(m.test(b"\tf 1/1 2/2 3/3"));
    assert!(!m.test(b"v 1 2 3"));
}

#[test]
fn two_letter_recognizer_needs_both_letters() {
    let mut stc = StateTransitionCollection::new(4);
    stc.set_transition(0, 0, FiniteStateMachine::whitespace_pattern());
    stc.set_transition(0, 1, FiniteStateMachine::single_character_pattern(b'v'));
    stc.set_transition(1, 2, FiniteStateMachine::single_character_pattern(b't'));
    stc.set_transition(2, 3, FiniteStateMachine::whitespace_pattern());
    let m = FiniteStateMachine::new(4, stc, true, vec![3]);
    assert!(m.test(b"vt 0.5 0.5"));
    assert!(!m.test(b"v 1 2 3"));
    assert!(!m.test(b"vn 0 0 1"));
}

#[test]
fn digit_run_machine_accepts_at_the_end_only() {
    let mut stc = StateTransitionCollection::new(2);
    stc.set_transition(0, 1, FiniteStateMachine::digit_pattern());
    stc.set_transition(1, 1, FiniteStateMachine::digit_pattern());
    let m = FiniteStateMachine::new(2, stc, false, vec![1]);
    assert!(m.test(b"123"));
    assert!(m.test(b"7"));
    assert!(!m.test(b""));
    assert!(!m.test(b"12a"));
    assert!(!m.test(b"a12"));
}

#[test]
fn patterns_accept_their_bytes() {
    assert!(pattern_accepts(&FiniteStateMachine::whitespace_pattern(), b' '));
    assert!(pattern_accepts(&FiniteStateMachine::whitespace_pattern(), b'\t'));
    assert!(!pattern_accepts(&FiniteStateMachine::whitespace_pattern(), b'v'));
    assert!(pattern_accepts(&FiniteStateMachine::digit_pattern(), b'7'));
    assert!(!pattern_accepts(&FiniteStateMachine::digit_pattern(), b'x'));
    assert!(pattern_accepts(&FiniteStateMachine::single_character_pattern(b'v'), b'v'));
    assert!(!pattern_accepts(&FiniteStateMachine::single_character_pattern(b'v'), b'w'));
    let lit = FiniteStateMachine::literal_pattern(vec![b'a', b'b']);
    assert!(pattern_accepts(&lit, b'a'));
    assert!(pattern_accepts(&lit, b'b'));
    assert!(!pattern_accepts(&lit, b'c'));
    assert!(pattern_accepts(&FiniteStateMachine::any_character_pattern(), 0));
    assert!(pattern_accepts(&FiniteStateMachine::any_character_pattern(), 255));
}

#[test]
fn any_character_pattern_consumes_everything() {
    let mut stc = StateTransitionCollection::new(2);
    stc.set_transition(0, 1, FiniteStateMachine::any_character_pattern());
    stc.set_transition(1, 1, FiniteStateMachine::any_character_pattern());
    let m = FiniteStateMachine::new(2, stc, false, vec![1]);
    assert!(m.test(b"whatever"));
    assert!(!m.test(b""));
}
