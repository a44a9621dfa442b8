use vstd::prelude::*;

verus! {

/// Whether any of the first `n` workers reached the goal.
pub open spec fn any_done(locals: Seq<bool>, n: int) -> bool {
    exists|j: int| 0 <= j < n && j < locals.len() && #[trigger] locals[j]
}

/// The value that worker `i` sends in the first pass of the handshake: the
/// initiator opens with its own flag, every later worker passes on what it
/// received from its predecessor.
pub open spec fn first_pass_sent(locals: Seq<bool>, i: int) -> bool
    decreases i,
{
    if i <= 0 {
        locals[0]
    } else {
        pass_on_spec(i, locals[i], first_pass_sent(locals, i - 1))
    }
}

/// The value that worker `i` sends in the second pass: the initiator passes
/// on what came back to it from the last worker, every other worker passes on
/// what it received unchanged.
pub open spec fn second_pass_sent(locals: Seq<bool>, i: int) -> bool
    decreases i,
{
    if i <= 0 {
        pass_on_spec(0, locals[0], first_pass_sent(locals, locals.len() - 1))
    } else {
        second_pass_sent(locals, i - 1)
    }
}

/// The value that worker `i` holds once the handshake is over: the one it
/// received in the second pass, from its predecessor on the ring.
pub open spec fn agreed(locals: Seq<bool>, i: int) -> bool {
    if i == 0 {
        second_pass_sent(locals, locals.len() - 1)
    } else {
        second_pass_sent(locals, i - 1)
    }
}

/// What a worker passes on when the first-pass value `incoming` reaches it:
/// the initiator, to which the value has come back around the ring, passes
/// it on as it is; every other worker joins its own flag in.
pub open spec fn pass_on_spec(index: int, local_done: bool, incoming: bool) -> bool {
    if index == 0 {
        incoming
    } else {
        incoming || local_done
    }
}

/// What a worker passes on when the first-pass value reaches it.
pub fn pass_on(index: usize, local_done: bool, incoming: bool) -> (sent: bool)
    ensures
        sent == pass_on_spec(index as int, local_done, incoming),
{
    if index == 0 {
        incoming
    } else {
        incoming || local_done
    }
}

proof fn lemma_first_pass(locals: Seq<bool>, i: int)
    requires
        0 <= i < locals.len(),
    ensures
        first_pass_sent(locals, i) == any_done(locals, i + 1),
    decreases i,
{
    if i > 0 {
        lemma_first_pass(locals, i - 1);
        if any_done(locals, i + 1) && !locals[i] {
            let j = choose|j: int| 0 <= j < i + 1 && j < locals.len() && #[trigger] locals[j];
            assert(j < i);
            assert(any_done(locals, i));
        }
    }
}

proof fn lemma_second_pass(locals: Seq<bool>, i: int)
    requires
        0 <= i < locals.len(),
    ensures
        second_pass_sent(locals, i) == first_pass_sent(locals, locals.len() - 1),
    decreases i,
{
    if i > 0 {
        lemma_second_pass(locals, i - 1);
    }
}

/// Every worker ends the handshake holding the same value: true exactly when
/// some worker reached the goal.
pub proof fn lemma_handshake_agrees(locals: Seq<bool>, i: int)
    requires
        0 <= i < locals.len(),
    ensures
        agreed(locals, i) == any_done(locals, locals.len() as int),
{
    lemma_first_pass(locals, locals.len() - 1);
    if i == 0 {
        lemma_second_pass(locals, locals.len() - 1);
    } else {
        lemma_second_pass(locals, i - 1);
    }
}

/// Once any worker's own flag is set in a generation, every worker receives
/// true at the end of that generation's handshake, whichever worker set it.
pub proof fn lemma_termination_monotone(locals: Seq<bool>, setter: int, i: int)
    requires
        0 <= setter < locals.len(),
        locals[setter],
        0 <= i < locals.len(),
    ensures
        agreed(locals, i),
{
    lemma_handshake_agrees(locals, i);
    assert(any_done(locals, locals.len() as int));
}

} // verus!
