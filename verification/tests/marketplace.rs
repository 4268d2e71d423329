use gane::marketplace::installation::{InstallationError, InstallationManager, InstallationStatus};
use gane::types::EntityId;

fn test_mgr() -> InstallationManager {
    InstallationManager::new(10)
}

#[test]
fn install_and_retrieve() {
    let mut mgr = test_mgr();
    let user_id = EntityId::new();
    let listing_id = EntityId::new();
    let inst = mgr.install(listing_id, user_id, "1.0.0").unwrap();
    assert_eq!(inst.status, InstallationStatus::Active);
    assert!(inst.auto_update);
    assert_eq!(mgr.for_user(&user_id).len(), 1);
}

#[test]
fn duplicate_install_rejected() {
    let mut mgr = test_mgr();
    let user_id = EntityId::new();
    let listing_id = EntityId::new();
    mgr.install(listing_id, user_id, "1.0.0").unwrap();
    let result = mgr.install(listing_id, user_id, "1.0.0");
    assert!(matches!(result.unwrap_err(), InstallationError::AlreadyInstalled { .. }));
}

#[test]
fn max_installations_enforced() {
    let mut mgr = InstallationManager::new(2);
    let user_id = EntityId::new();
    mgr.install(EntityId::new(), user_id, "1.0").unwrap();
    mgr.install(EntityId::new(), user_id, "1.0").unwrap();
    let result = mgr.install(EntityId::new(), user_id, "1.0");
    assert!(matches!(result.unwrap_err(), InstallationError::TooManyInstallations { max: 2 }));
}

#[test]
fn uninstall_frees_slot() {
    let mut mgr = InstallationManager::new(2);
    let user_id = EntityId::new();
    let inst1 = mgr.install(EntityId::new(), user_id, "1.0").unwrap();
    mgr.install(EntityId::new(), user_id, "1.0").unwrap();
    mgr.uninstall(&inst1.id).unwrap();
    mgr.install(EntityId::new(), user_id, "1.0").unwrap();
    assert_eq!(mgr.for_user(&user_id).len(), 2);
}

#[test]
fn enable_disable_cycle() {
    let mut mgr = test_mgr();
    let inst = mgr.install(EntityId::new(), EntityId::new(), "1.0").unwrap();
    mgr.disable(&inst.id).unwrap();
    assert_eq!(mgr.get(&inst.id).unwrap().status, InstallationStatus::Disabled);
    mgr.enable(&inst.id).unwrap();
    assert_eq!(mgr.get(&inst.id).unwrap().status, InstallationStatus::Active);
}

#[test]
fn enable_non_disabled_fails() {
    let mut mgr = test_mgr();
    let inst = mgr.install(EntityId::new(), EntityId::new(), "1.0").unwrap();
    let result = mgr.enable(&inst.id);
    assert!(result.is_err());
    assert_eq!(
        result.unwrap_err(),
        InstallationError::InvalidTransition {
            from: InstallationStatus::Active,
            to: InstallationStatus::Active
        }
    );
}

#[test]
fn update_flow() {
    let mut mgr = test_mgr();
    let inst = mgr.install(EntityId::new(), EntityId::new(), "1.0.0").unwrap();
    mgr.mark_update_available(&inst.id).unwrap();
    assert_eq!(mgr.pending_updates().len(), 1);
    mgr.apply_update(&inst.id, "2.0.0").unwrap();
    assert_eq!(mgr.get(&inst.id).unwrap().installed_version, "2.0.0");
    assert_eq!(mgr.get(&inst.id).unwrap().status, InstallationStatus::Active);
}

#[test]
fn auto_update_toggle() {
    let mut mgr = test_mgr();
    let inst = mgr.install(EntityId::new(), EntityId::new(), "1.0").unwrap();
    mgr.mark_update_available(&inst.id).unwrap();
    assert_eq!(mgr.pending_updates().len(), 1);
    mgr.set_auto_update(&inst.id, false).unwrap();
    assert_eq!(mgr.pending_updates().len(), 0);
}

#[test]
fn reinstall_after_uninstall() {
    let mut mgr = test_mgr();
    let user_id = EntityId::new();
    let listing_id = EntityId::new();
    let inst = mgr.install(listing_id, user_id, "1.0").unwrap();
    mgr.uninstall(&inst.id).unwrap();
    let inst2 = mgr.install(listing_id, user_id, "2.0").unwrap();
    assert_eq!(inst2.installed_version, "2.0");
}

#[test]
fn total_active() {
    let mut mgr = test_mgr();
    let i1 = mgr.install(EntityId::new(), EntityId::new(), "1.0").unwrap();
    mgr.install(EntityId::new(), EntityId::new(), "1.0").unwrap();
    mgr.disable(&i1.id).unwrap();
    assert_eq!(mgr.total_active(), 1);
}

#[test]
fn installation_errors_by_case() {
    let mut mgr = test_mgr();
    let missing = EntityId::from_u128(99);
    assert_eq!(mgr.uninstall(&missing).unwrap_err(), InstallationError::NotFound(missing));
    let inst = mgr.install(EntityId::new(), EntityId::new(), "1.0").unwrap();
    mgr.uninstall(&inst.id).unwrap();
    assert_eq!(mgr.uninstall(&inst.id).unwrap_err(), InstallationError::AlreadyUninstalled);
    assert_eq!(mgr.mark_update_available(&inst.id).unwrap_err(), InstallationError::AlreadyUninstalled);
    assert_eq!(mgr.get(&inst.id).unwrap().status, InstallationStatus::Uninstalled);
    assert_eq!(
        mgr.disable(&inst.id).unwrap_err(),
        InstallationError::InvalidTransition {
            from: InstallationStatus::Uninstalled,
            to: InstallationStatus::Disabled
        }
    );
    assert!(mgr.set_auto_update(&missing, true).is_err());
    assert!(mgr.get(&missing).is_none());
}
