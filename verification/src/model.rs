//! Data shapes of the delivery pipeline document, and the run's options.

use vstd::prelude::*;
use vstd::string::StringExecFns;

verus! {

/// The environment mapping of one configuration sub-resource: variable names
/// paired with raw values. Keys are expected unique; insertion order carries
/// no meaning.
#[derive(Debug, PartialEq)]
pub struct ApplyResources {
    pub env: Vec<(String, String)>,
}

/// A step's configuration. Exactly one of the two sub-resources must be
/// present for the step to be processable; both present and both absent are
/// resolution errors.
#[derive(Debug, PartialEq)]
pub struct DeploymentConfig {
    pub apply_permanent_resources: Option<ApplyResources>,
    pub apply_manifests: Option<ApplyResources>,
}

/// One entry of the pipeline: an id (used as the output subdirectory name),
/// an optional process tag, and an optional configuration.
#[derive(Debug, PartialEq)]
pub struct PipelineStep {
    pub id: String,
    pub process: Option<String>,
    pub config: Option<DeploymentConfig>,
}

/// The top-level document: an informational version and the ordered pipeline.
#[derive(Debug, PartialEq)]
pub struct Delivery {
    pub version: String,
    pub pipeline: Vec<PipelineStep>,
}

/// The run's options: the document path, the output root directory, and the
/// build version substituted for the placeholder token.
#[derive(Debug, PartialEq)]
pub struct Opt {
    pub delivery_yaml: String,
    pub output_dir: String,
    pub cdp_build_version: String,
}

impl Default for Opt {
    /// The documented defaults: document `delivery.yaml`, output root
    /// `mister`, and a build version equal to the placeholder token itself,
    /// so that an unset build version makes substitution a no-op.
    fn default() -> (r: Opt)
        ensures
            r.delivery_yaml@ == "delivery.yaml"@,
            r.output_dir@ == "mister"@,
            r.cdp_build_version@ == "#{CDP_BUILD_VERSION}"@,
    {
        Opt {
            delivery_yaml: String::from_str("delivery.yaml"),
            output_dir: String::from_str("mister"),
            cdp_build_version: String::from_str("#{CDP_BUILD_VERSION}"),
        }
    }
}

} // verus!
