//! The composition root: one bundle of the stores and the three services.
use vstd::prelude::*;
use crate::auth::{default_issuer, AuthService, AuthServiceView};
use crate::orchestration::{fresh_engine, OrchestrationEngine};
use crate::persistence::{empty_store, InMemoryPersistence};
use crate::provisioning::{fresh_provisioning, ProvisioningService};

verus! {

/// The stores and the services of one platform instance. The services work on the
/// stores of the bundle: hand them `storage` together with the service.
pub struct PlatformServices {
    pub storage: InMemoryPersistence,
    pub auth: AuthService,
    pub provisioning: ProvisioningService,
    pub orchestration: OrchestrationEngine,
}

impl PlatformServices {
    /// Whether the stores and the services are well formed.
    pub open spec fn wf(&self) -> bool {
        &&& self.storage.wf()
        &&& self.provisioning.wf()
        &&& self.orchestration.wf()
    }

    /// A bundle with empty stores held in memory, whose tokens are signed with `secret`.
    pub fn in_memory(secret: Vec<u8>) -> (services: Self)
        ensures
            services.wf(),
            services.storage@ == empty_store(),
            services.provisioning@ == fresh_provisioning(),
            services.orchestration@ == fresh_engine(),
            services.auth@ == (AuthServiceView {
                secret: secret@,
                default_ttl: 3_600_000,
                default_refresh_ttl: 43_200_000,
                issuer: default_issuer(),
                default_audience: None,
            }),
    {
        PlatformServices {
            storage: InMemoryPersistence::new(),
            auth: AuthService::new(secret),
            provisioning: ProvisioningService::new(),
            orchestration: OrchestrationEngine::new(),
        }
    }

    /// The authentication service.
    pub fn auth(&self) -> (auth: &AuthService)
        ensures
            *auth == self.auth,
    {
        &self.auth
    }

    /// The provisioning service.
    pub fn provisioning(&self) -> (provisioning: &ProvisioningService)
        ensures
            *provisioning == self.provisioning,
    {
        &self.provisioning
    }

    /// The orchestration engine.
    pub fn orchestration(&self) -> (orchestration: &OrchestrationEngine)
        ensures
            *orchestration == self.orchestration,
    {
        &self.orchestration
    }

    /// The stores.
    pub fn storage(&self) -> (storage: &InMemoryPersistence)
        ensures
            *storage == self.storage,
    {
        &self.storage
    }
}

} // verus!
