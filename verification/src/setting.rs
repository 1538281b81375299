use vstd::prelude::*;

verus! {

/// One retention clause: any tag or repository name whose text contains
/// `keyword` is a deletion candidate (together with every tag aliasing the
/// same digest, for tag filtering).
pub struct Rule {
    pub keyword: String,
    pub num: Option<usize>,
}

/// The count clause: keep the `num` most recently created tags.
pub struct DefaultRule {
    pub num: usize,
}

/// A rule set: an optional count clause and an optional list of keyword
/// clauses, evaluated keyword clauses first.
pub struct KeepRule {
    pub default: Option<DefaultRule>,
    pub rules: Option<Vec<Rule>>,
}

/// The rule set applied to repository names from the catalog.
pub struct ImageRule {
    pub keep: KeepRule,
}

/// The rule set applied to the tags of one repository.
pub struct TagRule {
    pub keep: KeepRule,
}

/// The retention policy: one rule set for repository names, one for tags.
pub struct Filter {
    pub image_name: ImageRule,
    pub tag: TagRule,
}

/// The identity endpoint's tenant.
pub struct AzureAuth {
    pub tenant_id: String,
}

/// The registry endpoint and the client credentials that may manage it.
pub struct AcrAuth {
    pub image_manager_id: String,
    pub image_manager_pwd: String,
    pub endpoint: String,
}

/// Everything the pipeline is configured with: where to authenticate,
/// which registry to manage, and the retention policy.
pub struct Config {
    pub azure: AzureAuth,
    pub acr: AcrAuth,
    pub filter: Option<Filter>,
}

impl Config {
    pub fn azure_tenant_id(&self) -> (r: &str)
        ensures
            r@ == self.azure.tenant_id@,
    {
        self.azure.tenant_id.as_str()
    }

    pub fn azure_acr_image_manager_id(&self) -> (r: &str)
        ensures
            r@ == self.acr.image_manager_id@,
    {
        self.acr.image_manager_id.as_str()
    }

    pub fn azure_acr_image_manager_pwd(&self) -> (r: &str)
        ensures
            r@ == self.acr.image_manager_pwd@,
    {
        self.acr.image_manager_pwd.as_str()
    }

    pub fn azure_acr_endpoint(&self) -> (r: &str)
        ensures
            r@ == self.acr.endpoint@,
    {
        self.acr.endpoint.as_str()
    }
}

} // verus!
