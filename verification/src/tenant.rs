//! Tenant data for multi-tenant deployments, and the permission rule.

use vstd::prelude::*;

use crate::text::str_eq;

verus! {

/// How a tenant is deployed.
#[derive(Clone, Copy, Debug, PartialEq, Eq, Structural)]
pub enum DeploymentMode {
    Shared,
    Dedicated,
    WhiteLabel,
    OnPremise,
}

/// Where a tenant stands in its lifecycle.
#[derive(Clone, Copy, Debug, PartialEq, Eq, Structural)]
pub enum TenantStatus {
    Active,
    Suspended,
    Trial,
    Pending,
    Terminated,
}

/// A tenant's scheduling priority.
#[derive(Clone, Copy, Debug, PartialEq, Eq, Structural)]
pub enum PriorityTier {
    Free,
    Basic,
    Pro,
    Enterprise,
}

/// Who bills the tenant.
#[derive(Debug)]
pub enum BillingProvider {
    Stripe { webhook_endpoint_id: String },
    Paddle { vendor_id: String },
    EnterpriseInvoicing { contract_id: String, billing_contact: String },
}

/// Payment conditions.
#[derive(Debug)]
pub struct PaymentTerms {
    pub net_days: u32,
    pub currency: String,
    pub tax_exempt: bool,
}

/// A tenant's billing setup.
#[derive(Debug)]
pub struct BillingConfig {
    pub billing_provider: BillingProvider,
    pub customer_id: String,
    pub subscription_id: Option<String>,
    pub billing_email: String,
    pub payment_terms: PaymentTerms,
}

/// White-label branding.
#[derive(Debug)]
pub struct BrandingConfig {
    pub brand_name: String,
    pub logo_url: String,
    pub primary_color: String,
    pub custom_domain: Option<String>,
    pub support_email: String,
    pub documentation_url: Option<String>,
}

/// What an API key may do.
#[derive(Debug)]
pub struct Permissions {
    pub can_read: bool,
    pub can_write: bool,
    pub can_delete: bool,
    pub is_admin: bool,
    pub allowed_operations: Vec<String>,
}

/// `ops` lists the string `s`.
pub open spec fn ops_contains(ops: Seq<String>, s: Seq<char>) -> bool {
    exists|k: int| 0 <= k < ops.len() && (#[trigger] ops[k])@ == s
}

/// The permission rule: an admin may do anything; anyone else needs the
/// operation, or the wildcard, in their allowed list.
pub fn permission_allows(p: &Permissions, operation: &str) -> (r: bool)
    ensures
        r == (p.is_admin || ops_contains(p.allowed_operations@, operation@) || ops_contains(
            p.allowed_operations@,
            "*"@,
        )),
{
    if p.is_admin {
        return true;
    }
    let n = p.allowed_operations.len();
    let mut k: usize = 0;
    while k < n
        invariant
            k <= n,
            n == p.allowed_operations@.len(),
            forall|j: int|
                0 <= j < k ==> (#[trigger] p.allowed_operations@[j])@ != operation@
                    && p.allowed_operations@[j]@ != "*"@,
        decreases n - k,
    {
        if str_eq(p.allowed_operations[k].as_str(), operation) || str_eq(
            p.allowed_operations[k].as_str(),
            "*",
        ) {
            return true;
        }
        k = k + 1;
    }
    false
}

} // verus!
