//! Event producer logic.
//!
//! A producer is a long-lived loop: it takes the next domain event
//! from its source, publishes it to the hub, and checks the
//! process-wide cancellation signal at every iteration boundary,
//! stopping promptly — without draining — once signalled. The loop
//! body's decision is the verified step here; the timer and task
//! around it live in the application crate.

use vstd::prelude::*;

verus! {

/// Whether a producer loop is still running.
#[derive(Clone, Copy, Debug, PartialEq, Eq, Structural)]
pub enum ProducerState {
    Running,
    Stopped,
}

/// One producer iteration: a set cancellation flag (or an already
/// stopped producer) publishes nothing and stops; otherwise the drawn
/// item, if any, is published and the loop keeps running.
pub open spec fn spec_producer_step<T>(
    state: ProducerState,
    cancelled: bool,
    item: Option<T>,
) -> (ProducerState, Option<T>) {
    if cancelled || state is Stopped {
        (ProducerState::Stopped, None)
    } else {
        (ProducerState::Running, item)
    }
}

/// Decides one producer iteration; the returned item, if any, is what
/// the caller publishes to the hub.
pub fn producer_step<T>(state: ProducerState, cancelled: bool, item: Option<T>) -> (r: (
    ProducerState,
    Option<T>,
))
    ensures
        r == spec_producer_step(state, cancelled, item),
        cancelled ==> r.1 is None && r.0 is Stopped,
{
    if cancelled {
        (ProducerState::Stopped, None)
    } else {
        match state {
            ProducerState::Stopped => (ProducerState::Stopped, None),
            ProducerState::Running => (ProducerState::Running, item),
        }
    }
}

/// What a producer publishes over a whole run of inputs, one
/// `(cancellation flag, drawn item)` pair per iteration.
pub open spec fn producer_outputs<T>(
    state: ProducerState,
    inputs: Seq<(bool, Option<T>)>,
) -> Seq<Option<T>>
    decreases inputs.len(),
{
    if inputs.len() == 0 {
        Seq::empty()
    } else {
        let step = spec_producer_step(state, inputs[0].0, inputs[0].1);
        seq![step.1] + producer_outputs(step.0, inputs.drop_first())
    }
}

/// A producer yields one output per iteration.
pub proof fn lemma_outputs_len<T>(state: ProducerState, inputs: Seq<(bool, Option<T>)>)
    ensures
        producer_outputs(state, inputs).len() == inputs.len(),
    decreases inputs.len(),
{
    if inputs.len() > 0 {
        let step = spec_producer_step(state, inputs[0].0, inputs[0].1);
        lemma_outputs_len(step.0, inputs.drop_first());
    }
}

/// A stopped producer never publishes again.
pub proof fn lemma_stopped_silent<T>(inputs: Seq<(bool, Option<T>)>, j: int)
    requires
        0 <= j < inputs.len(),
    ensures
        producer_outputs(ProducerState::Stopped, inputs)[j] is None,
    decreases inputs.len(),
{
    let step = spec_producer_step(ProducerState::Stopped, inputs[0].0, inputs[0].1);
    let out = producer_outputs(ProducerState::Stopped, inputs);
    let rest = producer_outputs(step.0, inputs.drop_first());
    lemma_outputs_len(step.0, inputs.drop_first());
    assert(out == seq![step.1] + rest);
    if j > 0 {
        lemma_stopped_silent(inputs.drop_first(), j - 1);
        assert(out[j] == rest[j - 1]);
    } else {
        assert(out[0] == step.1);
    }
}

/// Shutdown: once an iteration observes the cancellation signal,
/// nothing is published at that iteration or any later one, whatever
/// the source still yields.
pub proof fn lemma_no_publish_after_cancel<T>(
    state: ProducerState,
    inputs: Seq<(bool, Option<T>)>,
    k: int,
    j: int,
)
    requires
        0 <= k <= j < inputs.len(),
        inputs[k].0,
    ensures
        producer_outputs(state, inputs)[j] is None,
    decreases inputs.len(),
{
    let step = spec_producer_step(state, inputs[0].0, inputs[0].1);
    let out = producer_outputs(state, inputs);
    let rest = producer_outputs(step.0, inputs.drop_first());
    lemma_outputs_len(step.0, inputs.drop_first());
    assert(out == seq![step.1] + rest);
    if k == 0 {
        if j == 0 {
            assert(out[0] == step.1);
        } else {
            if inputs[0].0 {
                lemma_stopped_silent(inputs.drop_first(), j - 1);
            } else {
                lemma_no_publish_after_cancel(step.0, inputs.drop_first(), 0, j - 1);
            }
            assert(out[j] == rest[j - 1]);
        }
    } else {
        assert(inputs.drop_first()[k - 1] == inputs[k]);
        lemma_no_publish_after_cancel(step.0, inputs.drop_first(), k - 1, j - 1);
        assert(out[j] == rest[j - 1]);
    }
}

/// The transactions channel capacity an external setting selects: the
/// written value where the text is a canonical decimal that fits,
/// and the default of one hundred where the setting is absent or
/// unparsable.
pub open spec fn spec_buffer_size(setting: Option<Seq<char>>) -> int {
    match setting {
        None => 100,
        Some(t) => match crate::parse::sp_u64(t, 0) {
            Some((v, e)) => if e == t.len() && v <= usize::MAX {
                v as int
            } else {
                100
            },
            None => 100,
        },
    }
}

/// Reads the transactions channel capacity from an optional external
/// setting, falling back to the default of one hundred.
pub fn buffer_size_from(setting: Option<&str>) -> (r: usize)
    ensures
        r as int == spec_buffer_size(match setting {
            Some(s) => Some(s@),
            None => None,
        }),
{
    match setting {
        None => 100,
        Some(s) => {
            match crate::parse::parse_u64_at(s, 0) {
                Some((v, e)) => {
                    if e == s.unicode_len() && v <= usize::MAX as u64 {
                        v as usize
                    } else {
                        100
                    }
                },
                None => 100,
            }
        },
    }
}

} // verus!
