//! Where the relay forwards reports and inventories to its upstream server.
use vstd::prelude::*;

verus! {

/// Kind of an inventory sent by a node.
#[derive(Debug, Clone, Copy, PartialEq, Eq)]
pub enum InventoryType {
    /// First inventory of a node.
    New,
    /// Inventory of a node already known.
    Update,
}

/// Which configured password authenticates an upload.
#[derive(Debug, Clone, Copy, PartialEq, Eq)]
pub enum Credential {
    /// The node's own upstream password.
    Password,
    /// The password shared by nodes that are not yet accepted.
    DefaultPassword,
}

/// Where a file goes upstream, and with which password.
#[derive(Debug, Clone, PartialEq, Eq)]
pub struct Upload {
    pub endpoint: String,
    pub credential: Credential,
}

/// Uploads of reports.
pub fn report_upload() -> (r: Upload)
    ensures
        r.endpoint@ == "reports"@,
        r.credential == Credential::Password,
{
    Upload { endpoint: String::from_str("reports"), credential: Credential::Password }
}

/// Uploads of inventories: new ones go with the default password.
pub fn inventory_upload(t: InventoryType) -> (r: Upload)
    ensures
        t == InventoryType::New ==> r.endpoint@ == "inventories"@ && r.credential
            == Credential::DefaultPassword,
        t == InventoryType::Update ==> r.endpoint@ == "inventory-updates"@ && r.credential
            == Credential::Password,
{
    match t {
        InventoryType::New => Upload {
            endpoint: String::from_str("inventories"),
            credential: Credential::DefaultPassword,
        },
        InventoryType::Update => Upload {
            endpoint: String::from_str("inventory-updates"),
            credential: Credential::Password,
        },
    }
}

/// URL of a file upstream: `<base>/<endpoint>/<file name>`.
pub fn upload_url(base: &str, endpoint: &str, file_name: &str) -> (r: String)
    ensures
        r@ == base@ + "/"@ + endpoint@ + "/"@ + file_name@,
{
    let mut r = String::from_str(base);
    r.append("/");
    r.append(endpoint);
    r.append("/");
    r.append(file_name);
    r
}

} // verus!
