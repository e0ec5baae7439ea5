//! The environment resolver: picks the single environment mapping out of a
//! step's configuration by mutual exclusivity, then substitutes the
//! build-version placeholder token in every value.

use crate::model::ApplyResources;
use crate::model::DeploymentConfig;
use crate::text::replace_all;
use crate::text::replace_all_str;
use vstd::prelude::*;
use vstd::string::StringExecFns;

verus! {

/// The build-version placeholder token replaced in environment values.
pub open spec fn build_token() -> Seq<char> {
    "#{CDP_BUILD_VERSION}"@
}

/// Why a configuration could not be resolved: the two sub-resources are
/// mutually exclusive, so both absent and both present are errors.
#[derive(Debug, Clone, Copy, PartialEq, Eq, Structural)]
pub enum ResolveError {
    BothAbsent,
    BothPresent,
}

impl ResolveError {
    /// A human-readable account of the error.
    pub fn message(&self) -> (r: String)
        ensures
            r@
                == "deployment step must contain exactly one of 'apply_permanent_resources' or 'apply_manifests'"@,
    {
        String::from_str(
            "deployment step must contain exactly one of 'apply_permanent_resources' or 'apply_manifests'",
        )
    }
}

/// Exactly one of the two configuration sub-resources is present.
pub open spec fn spec_exactly_one(config: DeploymentConfig) -> bool {
    (config.apply_permanent_resources is Some) != (config.apply_manifests is Some)
}

/// The environment mapping of the single present sub-resource.
pub open spec fn spec_active_env(config: DeploymentConfig) -> Seq<(String, String)> {
    if config.apply_manifests is Some {
        config.apply_manifests->0.env@
    } else {
        config.apply_permanent_resources->0.env@
    }
}

/// The documented invariant of an environment mapping: its keys are unique.
pub open spec fn spec_env_keys_unique(env: Seq<(String, String)>) -> bool {
    forall|i: int, j: int|
        #![trigger env[i], env[j]]
        0 <= i < j < env.len() ==> env[i].0@ != env[j].0@
}

/// The resolved pairs relate to the active ones key for key: keys unchanged,
/// every value with each occurrence of the placeholder token replaced by the
/// build version.
pub open spec fn spec_substituted(
    resolved: Seq<(String, String)>,
    active: Seq<(String, String)>,
    build_version: Seq<char>,
) -> bool {
    &&& resolved.len() == active.len()
    &&& forall|i: int|
        0 <= i < active.len() ==> resolved[i].0 == active[i].0 && (#[trigger] resolved[i].1)@
            == replace_all(active[i].1@, build_token(), build_version)
}

/// Substitutes every occurrence of the placeholder token in one value.
pub fn substitute_token(value: &str, build_version: &str) -> (r: String)
    ensures
        r@ == replace_all(value@, build_token(), build_version@),
{
    proof {
        reveal_strlit("#{CDP_BUILD_VERSION}");
    }
    replace_all_str(value, "#{CDP_BUILD_VERSION}", build_version)
}

/// Resolves a step's configuration to its environment mapping: fails when
/// both or neither sub-resource is present; otherwise returns the single
/// mapping with the placeholder token substituted in every value.
pub fn parse_env(config: DeploymentConfig, cdp_build_version: &str) -> (r: Result<
    Vec<(String, String)>,
    ResolveError,
>)
    ensures
        config.apply_permanent_resources is Some && config.apply_manifests is Some ==> r == Err::<
            Vec<(String, String)>,
            ResolveError,
        >(ResolveError::BothPresent),
        config.apply_permanent_resources is None && config.apply_manifests is None ==> r == Err::<
            Vec<(String, String)>,
            ResolveError,
        >(ResolveError::BothAbsent),
        spec_exactly_one(config) ==> r is Ok && spec_substituted(
            r->Ok_0@,
            spec_active_env(config),
            cdp_build_version@,
        ),
        spec_exactly_one(config) && spec_env_keys_unique(spec_active_env(config))
            ==> spec_env_keys_unique(r->Ok_0@),
{
    let DeploymentConfig { apply_permanent_resources, apply_manifests } = config;
    let active: ApplyResources = match (apply_permanent_resources, apply_manifests) {
        (Some(_), Some(_)) => {
            return Err(ResolveError::BothPresent);
        },
        (None, None) => {
            return Err(ResolveError::BothAbsent);
        },
        (Some(a), None) => a,
        (None, Some(a)) => a,
    };
    let ghost active_pairs = active.env@;
    let mut rest = active.env;
    let mut resolved: Vec<(String, String)> = Vec::new();
    while rest.len() > 0
        invariant
            resolved@.len() + rest@.len() == active_pairs.len(),
            rest@ =~= active_pairs.skip(resolved@.len() as int),
            forall|i: int|
                0 <= i < resolved@.len() ==> (#[trigger] resolved@[i]).0 == active_pairs[i].0
                    && resolved@[i].1@ == replace_all(
                    active_pairs[i].1@,
                    build_token(),
                    cdp_build_version@,
                ),
        decreases rest.len(),
    {
        let ghost prev = rest@;
        let ghost done = resolved@.len() as int;
        let ghost before = resolved@;
        let (key, value) = rest.remove(0);
        let new_value = substitute_token(value.as_str(), cdp_build_version);
        resolved.push((key, new_value));
        proof {
            assert(rest@ =~= prev.drop_first());
            assert(rest@ =~= active_pairs.skip(done + 1));
            assert(prev[0] == active_pairs[done]);
            assert(resolved@ =~= before + seq![(key, new_value)]);
            assert(resolved@[done] == (key, new_value));
        }
    }
    Ok(resolved)
}

} // verus!
