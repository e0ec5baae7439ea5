//! The per-step decision of the run: a step is either skipped with a notice,
//! fails resolution, or yields everything rendering needs — its resolved
//! environment, the template source directory, and the output directory.

use crate::model::PipelineStep;
use crate::render::spec_source_dir;
use crate::render::find_deploy_resources_dir;
use crate::render::step_output_dir;
use crate::resolve::parse_env;
use crate::resolve::spec_active_env;
use crate::resolve::spec_exactly_one;
use crate::resolve::spec_substituted;
use crate::resolve::ResolveError;
use crate::select::spec_selects;
use crate::select::step_is_selected;
use vstd::prelude::*;

verus! {

/// What is to be done for one pipeline step.
#[derive(Debug)]
pub enum StepPlan {
    /// The step is not deployable: nothing is written, a notice names the id.
    Skip { id: String },
    /// The step is deployable: render every regular file of `source_dir`
    /// against `env` into `output_dir`.
    Render { id: String, env: Vec<(String, String)>, source_dir: String, output_dir: String },
}

/// Decides one step of the run, in the document's order of fields: a step
/// not accepted by the selector is skipped; an accepted one has its
/// environment resolved (fatal on a mutual-exclusivity violation), its
/// template source directory read from that environment, and its output
/// directory placed under the output root by id.
pub fn plan_step(step: PipelineStep, cdp_build_version: &str, output_root: &str) -> (r: Result<
    StepPlan,
    ResolveError,
>)
    ensures
        !spec_selects(step) ==> r == Ok::<StepPlan, ResolveError>(StepPlan::Skip { id: step.id }),
        spec_selects(step) ==> {
            let config = step.config->0;
            &&& (config.apply_permanent_resources is Some && config.apply_manifests is Some ==> r
                == Err::<StepPlan, ResolveError>(ResolveError::BothPresent))
            &&& (config.apply_permanent_resources is None && config.apply_manifests is None ==> r
                == Err::<StepPlan, ResolveError>(ResolveError::BothAbsent))
            &&& (spec_exactly_one(config) ==> {
                &&& r is Ok
                &&& r->Ok_0 matches StepPlan::Render { id, env, source_dir, output_dir }
                &&& (r->Ok_0 matches StepPlan::Render { id, env, source_dir, output_dir } ==> {
                    &&& id == step.id
                    &&& spec_substituted(env@, spec_active_env(config), cdp_build_version@)
                    &&& source_dir@ == spec_source_dir(env@)
                    &&& output_dir@ == output_root@ + "/"@ + step.id@
                })
            })
        },
{
    let selected = step_is_selected(&step);
    let PipelineStep { id, process, config } = step;
    if !selected {
        return Ok(StepPlan::Skip { id });
    }
    let config = match config {
        Some(c) => c,
        None => {
            proof {
                assert(false);
            }
            unreached()
        },
    };
    match parse_env(config, cdp_build_version) {
        Err(e) => Err(e),
        Ok(env) => {
            let source_dir = find_deploy_resources_dir(&env);
            let output_dir = step_output_dir(output_root, id.as_str());
            Ok(StepPlan::Render { id, env, source_dir, output_dir })
        },
    }
}

} // verus!
