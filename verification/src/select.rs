//! The step selector: a pipeline step is accepted for processing exactly when
//! its process tag is one of the two recognized values and it carries a
//! configuration; every other step is skipped with a notice naming its id.

use crate::model::DeploymentConfig;
use crate::model::PipelineStep;
use crate::text::str_eq;
use vstd::prelude::*;

verus! {

/// The process tag marks a deployable step.
pub open spec fn spec_recognized(p: Seq<char>) -> bool {
    p == "microservice_standard_deployment"@ || p == "microservice_standard_test"@
}

/// The step is accepted for processing: its process tag is present and
/// recognized, and its configuration is present.
pub open spec fn spec_selects(step: PipelineStep) -> bool {
    &&& step.process is Some
    &&& spec_recognized(step.process->0@)
    &&& step.config is Some
}

/// The accepted `(id, config)` pairs of the pipeline, in document order.
pub open spec fn spec_selected(steps: Seq<PipelineStep>) -> Seq<(String, DeploymentConfig)>
    decreases steps.len(),
{
    if steps.len() == 0 {
        Seq::empty()
    } else if spec_selects(steps[0]) {
        seq![(steps[0].id, steps[0].config->0)] + spec_selected(steps.drop_first())
    } else {
        spec_selected(steps.drop_first())
    }
}

/// The ids of the skipped steps of the pipeline, in document order.
pub open spec fn spec_skipped(steps: Seq<PipelineStep>) -> Seq<String>
    decreases steps.len(),
{
    if steps.len() == 0 {
        Seq::empty()
    } else if spec_selects(steps[0]) {
        spec_skipped(steps.drop_first())
    } else {
        seq![steps[0].id] + spec_skipped(steps.drop_first())
    }
}

/// Every pipeline step is either accepted or skipped, exactly once.
pub proof fn lemma_select_partition(steps: Seq<PipelineStep>)
    ensures
        spec_selected(steps).len() + spec_skipped(steps).len() == steps.len(),
    decreases steps.len(),
{
    if steps.len() > 0 {
        lemma_select_partition(steps.drop_first());
    }
}

/// A step that the selector does not accept — its process tag absent or
/// unrecognized, or its configuration absent — is among the skipped ids, so
/// nothing is ever rendered or written for it.
pub proof fn lemma_unselected_step_is_skipped(steps: Seq<PipelineStep>, j: int)
    requires
        0 <= j < steps.len(),
        !spec_selects(steps[j]),
    ensures
        spec_skipped(steps).contains(steps[j].id),
    decreases steps.len(),
{
    if j == 0 {
        assert(spec_skipped(steps)[0] == steps[0].id);
    } else {
        lemma_unselected_step_is_skipped(steps.drop_first(), j - 1);
        let tail = spec_skipped(steps.drop_first());
        let k = choose|k: int| 0 <= k < tail.len() && tail[k] == steps[j].id;
        if spec_selects(steps[0]) {
            assert(spec_skipped(steps)[k] == steps[j].id);
        } else {
            assert(spec_skipped(steps)[k + 1] == steps[j].id);
        }
    }
}

/// A step that the selector accepts contributes its `(id, config)` pair to
/// the accepted steps.
pub proof fn lemma_selected_step_is_accepted(steps: Seq<PipelineStep>, j: int)
    requires
        0 <= j < steps.len(),
        spec_selects(steps[j]),
    ensures
        spec_selected(steps).contains((steps[j].id, steps[j].config->0)),
    decreases steps.len(),
{
    if j == 0 {
        assert(spec_selected(steps)[0] == (steps[0].id, steps[0].config->0));
    } else {
        lemma_selected_step_is_accepted(steps.drop_first(), j - 1);
        let tail = spec_selected(steps.drop_first());
        let pair = (steps[j].id, steps[j].config->0);
        let k = choose|k: int| 0 <= k < tail.len() && tail[k] == pair;
        if spec_selects(steps[0]) {
            assert(spec_selected(steps)[k + 1] == pair);
        } else {
            assert(spec_selected(steps)[k] == pair);
        }
    }
}

/// The process tag is one of the two recognized values.
pub fn recognized_process(p: &str) -> (r: bool)
    ensures
        r == spec_recognized(p@),
{
    str_eq(p, "microservice_standard_deployment") || str_eq(p, "microservice_standard_test")
}

/// The step is accepted for processing.
pub fn step_is_selected(step: &PipelineStep) -> (r: bool)
    ensures
        r == spec_selects(*step),
{
    match &step.process {
        Some(p) => recognized_process(p.as_str()) && step.config.is_some(),
        None => false,
    }
}

/// Splits the pipeline, in document order, into the accepted `(id, config)`
/// pairs and the ids of the skipped steps. No reordering, no deduplication:
/// two accepted steps sharing an id both appear.
pub fn select_steps(pipeline: Vec<PipelineStep>) -> (r: (
    Vec<(String, DeploymentConfig)>,
    Vec<String>,
))
    ensures
        r.0@ == spec_selected(pipeline@),
        r.1@ == spec_skipped(pipeline@),
{
    let ghost all = pipeline@;
    let mut rest = pipeline;
    let mut accepted: Vec<(String, DeploymentConfig)> = Vec::new();
    let mut skipped: Vec<String> = Vec::new();
    proof {
        assert(accepted@ + spec_selected(rest@) =~= spec_selected(all));
        assert(skipped@ + spec_skipped(rest@) =~= spec_skipped(all));
    }
    while rest.len() > 0
        invariant
            accepted@ + spec_selected(rest@) == spec_selected(all),
            skipped@ + spec_skipped(rest@) == spec_skipped(all),
        decreases rest.len(),
    {
        let ghost prev = rest@;
        let step = rest.remove(0);
        proof {
            assert(rest@ =~= prev.drop_first());
            assert(step == prev[0]);
        }
        if step_is_selected(&step) {
            let config = match step.config {
                Some(c) => c,
                None => {
                    proof {
                        assert(false);
                    }
                    unreached()
                },
            };
            accepted.push((step.id, config));
            proof {
                assert(spec_selected(prev) =~= seq![(prev[0].id, prev[0].config->0)]
                    + spec_selected(prev.drop_first()));
                assert(accepted@ =~= (accepted@.drop_last() + seq![
                    (prev[0].id, prev[0].config->0),
                ]));
                assert(accepted@ + spec_selected(rest@) =~= spec_selected(all));
            }
        } else {
            skipped.push(step.id);
            proof {
                assert(skipped@ + spec_skipped(rest@) =~= spec_skipped(all));
            }
        }
    }
    proof {
        assert(spec_selected(rest@) =~= Seq::empty());
        assert(spec_skipped(rest@) =~= Seq::empty());
        assert(accepted@ =~= accepted@ + Seq::empty());
        assert(skipped@ =~= skipped@ + Seq::empty());
    }
    (accepted, skipped)
}

} // verus!
