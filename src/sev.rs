//! Confidential-computing status: which encrypted-virtualization features the
//! platform reports as enabled.
use vstd::prelude::*;

verus! {

/// Status bit: encrypted virtualization is enabled.
pub const SEV_ENABLED: u64 = 1;

/// Status bit: encrypted register state is enabled.
pub const SEV_ES_ENABLED: u64 = 2;

/// Status bit: secure nested paging is active.
pub const SNP_ACTIVE: u64 = 4;

/// The raw status word that the platform reports.
#[derive(Clone, Copy, Debug, PartialEq, Eq, Structural)]
pub struct SevStatus {
    pub bits: u64,
}

impl SevStatus {
    /// No feature enabled: what a platform without encrypted virtualization
    /// reports.
    pub fn empty() -> (r: SevStatus)
        ensures
            r.bits == 0,
    {
        SevStatus { bits: 0 }
    }

    pub open spec fn has(self, flag: u64) -> bool {
        self.bits & flag == flag
    }

    /// Whether every bit of `flag` is set.
    pub fn contains(&self, flag: u64) -> (r: bool)
        ensures
            r == self.has(flag),
    {
        self.bits & flag == flag
    }
}

/// The features that decide the boot path, detected once at boot.
#[derive(Clone, Copy, Debug, PartialEq, Eq, Structural)]
pub struct SevFeatures {
    /// Encrypted register state: the hypervisor communication block is needed.
    pub es_enabled: bool,
    /// Secure nested paging: page-state changes and attestation are needed.
    pub snp_active: bool,
}

/// The features that a status read gives; a failed read (`None`) means that
/// none is enabled.
pub open spec fn features_of(raw: Option<u64>) -> SevFeatures {
    let bits: u64 = match raw {
        Some(b) => b,
        None => 0,
    };
    SevFeatures {
        es_enabled: bits & SEV_ES_ENABLED == SEV_ES_ENABLED,
        snp_active: bits & SNP_ACTIVE == SNP_ACTIVE,
    }
}

/// Derives the boot-relevant features from the result of the status read.
pub fn detect_features(raw: Option<u64>) -> (r: SevFeatures)
    ensures
        r == features_of(raw),
{
    let status = match raw {
        Some(b) => SevStatus { bits: b },
        None => SevStatus::empty(),
    };
    SevFeatures {
        es_enabled: status.contains(SEV_ES_ENABLED),
        snp_active: status.contains(SNP_ACTIVE),
    }
}

} // verus!
