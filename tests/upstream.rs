use rudderc::upstream::{inventory_upload, report_upload, upload_url, Credential, InventoryType};

#[test]
fn reports_use_node_password() {
    let u = report_upload();
    assert_eq!(u.endpoint, "reports");
    assert_eq!(u.credential, Credential::Password);
}

#[test]
fn inventories_are_routed_by_kind() {
    let n = inventory_upload(InventoryType::New);
    assert_eq!(n.endpoint, "inventories");
    assert_eq!(n.credential, Credential::DefaultPassword);
    let u = inventory_upload(InventoryType::Update);
    assert_eq!(u.endpoint, "inventory-updates");
    assert_eq!(u.credential, Credential::Password);
}

#[test]
fn upload_url_joins_parts() {
    assert_eq!(
        upload_url("https://server/rudder/relay-api", "reports", "r.log.gz"),
        "https://server/rudder/relay-api/reports/r.log.gz"
    );
}
