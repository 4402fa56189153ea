//! Identity configuration read from the process environment, and the
//! validation gate that must pass before any credential is requested.

use vstd::prelude::*;
use vstd::string::StringExecFns;

verus! {

/// The environment variable that carries the client id of the workload
/// identity.
pub open spec fn client_id_name() -> Seq<char> {
    "AZURE_CLIENT_ID"@
}

/// The environment variable that carries the tenant id.
pub open spec fn tenant_id_name() -> Seq<char> {
    "AZURE_TENANT_ID"@
}

/// The environment variable that carries the path of the federated token
/// file.
pub open spec fn federated_token_file_name() -> Seq<char> {
    "AZURE_FEDERATED_TOKEN_FILE"@
}

/// Identity parameters taken from the process environment. A variable that
/// is not set is represented by the empty string, so "missing" and "empty"
/// coincide here.
pub struct IdentityConfig {
    pub client_id: String,
    pub tenant_id: String,
    /// Logged only; the authority host plays no part in validation.
    pub authority_host: String,
    pub federated_token_file: String,
}

impl IdentityConfig {
    /// A configuration is valid exactly when the three required values are
    /// non-empty. `authority_host` is optional.
    pub open spec fn is_valid_spec(self) -> bool {
        self.client_id@.len() > 0 && self.tenant_id@.len() > 0
            && self.federated_token_file@.len() > 0
    }

    /// The names of the required variables that are empty, in the order
    /// they are checked: client id, tenant id, federated token file.
    pub open spec fn missing_required_spec(self) -> Seq<Seq<char>> {
        (if self.client_id@.len() == 0 {
            seq![client_id_name()]
        } else {
            Seq::empty()
        }) + (if self.tenant_id@.len() == 0 {
            seq![tenant_id_name()]
        } else {
            Seq::empty()
        }) + (if self.federated_token_file@.len() == 0 {
            seq![federated_token_file_name()]
        } else {
            Seq::empty()
        })
    }

    pub fn new(
        client_id: String,
        tenant_id: String,
        authority_host: String,
        federated_token_file: String,
    ) -> (r: IdentityConfig)
        ensures
            r.client_id == client_id,
            r.tenant_id == tenant_id,
            r.authority_host == authority_host,
            r.federated_token_file == federated_token_file,
    {
        IdentityConfig { client_id, tenant_id, authority_host, federated_token_file }
    }

    /// Lists the required variables that are empty, in the order checked.
    pub fn missing_required(&self) -> (r: Vec<String>)
        ensures
            r.deep_view() == self.missing_required_spec(),
    {
        let mut r: Vec<String> = Vec::new();
        if self.client_id.as_str().is_empty() {
            r.push(String::from_str("AZURE_CLIENT_ID"));
        }
        if self.tenant_id.as_str().is_empty() {
            r.push(String::from_str("AZURE_TENANT_ID"));
        }
        if self.federated_token_file.as_str().is_empty() {
            r.push(String::from_str("AZURE_FEDERATED_TOKEN_FILE"));
        }
        proof {
            assert(r.deep_view() =~= self.missing_required_spec());
        }
        r
    }

    /// True exactly when a credential acquisition may be attempted.
    pub fn is_valid(&self) -> (r: bool)
        ensures
            r == self.is_valid_spec(),
    {
        !self.client_id.as_str().is_empty() && !self.tenant_id.as_str().is_empty()
            && !self.federated_token_file.as_str().is_empty()
    }
}

/// A configuration is valid exactly when its missing-required list is
/// empty: the validation gate and the diagnostic listing agree.
pub proof fn lemma_valid_iff_none_missing(c: IdentityConfig)
    ensures
        c.is_valid_spec() <==> c.missing_required_spec().len() == 0,
{
}

} // verus!
