use vstd::prelude::*;
use vstd::string::*;
use crate::numbers::{dec_digits, u64_to_string};

verus! {

/// Ghost image of a service identity.
pub struct ServiceIdentityV {
    pub domain: Seq<char>,
    pub name: Seq<char>,
    pub version: u32,
}

/// One control service on a device, named by domain, service name and
/// version. Two well-known identities are used: the play service and the
/// browse service.
pub struct ServiceIdentity {
    pub domain: String,
    pub name: String,
    pub version: u32,
}

impl View for ServiceIdentity {
    type V = ServiceIdentityV;

    open spec fn view(&self) -> ServiceIdentityV {
        ServiceIdentityV { domain: self.domain@, name: self.name@, version: self.version }
    }
}

/// The canonical string form of an identity:
/// `urn:<domain>:service:<name>:<version>`. It serves both as the
/// discovery filter and as the service-type text matched in description
/// documents.
pub open spec fn urn_spec(id: ServiceIdentityV) -> Seq<char> {
    "urn:"@ + id.domain + ":service:"@ + id.name + ":"@ + dec_digits(id.version as nat)
}

impl ServiceIdentity {
    /// Render the canonical URN string form.
    pub fn to_urn(&self) -> (r: String)
        ensures
            r@ == urn_spec(self@),
    {
        let mut s = String::from_str("urn:");
        s.append(self.domain.as_str());
        s.append(":service:");
        s.append(self.name.as_str());
        s.append(":");
        let digits = u64_to_string(self.version as u64);
        s.append(digits.as_str());
        s
    }
}

/// The well-known play service identity.
pub fn sky_play() -> (r: ServiceIdentity)
    ensures
        r@.domain == "schemas-nds-com"@,
        r@.name == "SkyPlay"@,
        r@.version == 2,
{
    ServiceIdentity {
        domain: String::from_str("schemas-nds-com"),
        name: String::from_str("SkyPlay"),
        version: 2,
    }
}

/// The well-known browse service identity.
pub fn sky_browse() -> (r: ServiceIdentity)
    ensures
        r@.domain == "schemas-nds-com"@,
        r@.name == "SkyBrowse"@,
        r@.version == 2,
{
    ServiceIdentity {
        domain: String::from_str("schemas-nds-com"),
        name: String::from_str("SkyBrowse"),
        version: 2,
    }
}

} // verus!
