//! Types, validation rules and state bookkeeping for deploying workloads on
//! the ThreeFold grid.

pub mod codec;
pub mod deployer;
pub mod env_vars;
pub mod error;
pub mod json;
pub mod live;
pub mod loading;
pub mod machines;
pub mod matching;
pub mod node;
pub mod state;
pub mod subi;
pub mod text;
pub mod workloads;
pub mod zos;

pub use deployer::Deployer;
pub use error::GridError;
pub use live::types::{
    DeploymentOutcome, ExistingNetworkSpec, FullNetworkSpec, FullNetworkSpecBuilder,
    FullNetworkTarget, NetworkLightSpec, NetworkLightSpecBuilder, NetworkTarget, NodePlacement,
    NodeRequirements, NodeRequirementsBuilder, VmDeployment, VmDeploymentBuilder,
    VmLightDeployment, VmLightDeploymentBuilder, VmLightMount, VmLightSpec, VmLightSpecBuilder,
    VmSpec, VmSpecBuilder, VolumeMountSpec,
};
pub use subi::{Contract, ContractType, PricingPolicy, SubstrateExt};
pub use live::config::{
    GridClientConfig, GridClientConfigBuilder, DEV_NETWORK, MAIN_NETWORK, QA_NETWORK,
    TEST_NETWORK,
};

use vstd::prelude::*;

verus! {

/// Number of whole gibibytes in `value` bytes, rounded down.
pub fn bytes_to_gib(value: u64) -> (r: u64)
    ensures
        r == value / 1073741824u64,
{
    value / 1024 / 1024 / 1024
}

} // verus!
