//! The versioned health check of the application shell.
use vstd::prelude::*;

verus! {

pub const HEALTH_CONTRACT_VERSION: u32 = 1;

/// A health request; its JSON form refuses unknown fields.
#[derive(Debug, Clone, PartialEq, Eq)]
pub struct HealthRequest {
    pub contract_version: u32,
}

#[derive(Debug, Clone, Copy, PartialEq, Eq, Structural)]
pub enum HealthStatus {
    Ready,
}

#[derive(Debug, Clone, Copy, PartialEq, Eq, Structural)]
pub struct HealthReport {
    pub contract_version: u32,
    pub status: HealthStatus,
}

#[derive(Debug, Clone, Copy, PartialEq, Eq, Structural)]
pub enum HealthError {
    UnsupportedContractVersion { supported: u32, received: u32 },
}

/// Ready for the supported contract version; a typed error for any other.
pub fn health(request: HealthRequest) -> (r: Result<HealthReport, HealthError>)
    ensures
        request.contract_version == HEALTH_CONTRACT_VERSION ==> r == Ok::<HealthReport, HealthError>(
            HealthReport { contract_version: HEALTH_CONTRACT_VERSION, status: HealthStatus::Ready },
        ),
        request.contract_version != HEALTH_CONTRACT_VERSION ==> r == Err::<HealthReport, HealthError>(
            HealthError::UnsupportedContractVersion {
                supported: HEALTH_CONTRACT_VERSION,
                received: request.contract_version,
            },
        ),
{
    if request.contract_version != HEALTH_CONTRACT_VERSION {
        return Err(
            HealthError::UnsupportedContractVersion {
                supported: HEALTH_CONTRACT_VERSION,
                received: request.contract_version,
            },
        );
    }
    Ok(HealthReport { contract_version: HEALTH_CONTRACT_VERSION, status: HealthStatus::Ready })
}

} // verus!
