use maintenance_scheduler::execute::execute;
use maintenance_scheduler::execute::execute_add_equipment;
use maintenance_scheduler::execute::execute_add_user;
use maintenance_scheduler::execute::execute_clear_inventory;
use maintenance_scheduler::execute::execute_list_equipment;
use maintenance_scheduler::execute::execute_log_maintenance;
use maintenance_scheduler::execute::execute_remove_equipment;
use maintenance_scheduler::execute::execute_remove_worker;
use maintenance_scheduler::execute::execute_reset_maintenance;
use maintenance_scheduler::execute::execute_update_threshold;
use maintenance_scheduler::execute::instantiate;
use maintenance_scheduler::msg::ContractError;
use maintenance_scheduler::msg::Env;
use maintenance_scheduler::msg::ExecuteMsg;
use maintenance_scheduler::msg::InstantiateMsg;
use maintenance_scheduler::msg::QueryMsg;
use maintenance_scheduler::msg::CONTRACT_VERSION;
use maintenance_scheduler::query::query;
use maintenance_scheduler::query::query_equipment_info;
use maintenance_scheduler::query::query_list_equipment;
use maintenance_scheduler::query::query_maintenance_history;
use maintenance_scheduler::query::query_user_details;
use maintenance_scheduler::query::QueryAnswer;
use maintenance_scheduler::state::User;
use maintenance_scheduler::state::UserRole;
use maintenance_scheduler::store::State;

fn env(sender: &str, block_time: u64) -> Env {
    Env { sender: sender.to_string(), block_time }
}

fn seed_user(state: &mut State, key: &str, role: UserRole, org: &str) {
    state.put_user(
        key.to_string(),
        User { email: key.to_string(), role, organization_id: org.to_string() },
    );
}

fn add_pump(state: &mut State, id: &str, threshold: u64) {
    let r = execute_add_equipment(
        state,
        id.to_string(),
        "Pump".to_string(),
        "Main pump".to_string(),
        threshold,
    );
    assert!(r.is_ok());
}

#[test]
fn instantiate_records_version_and_creator() {
    let mut state = State::new();
    let resp = instantiate(&mut state, InstantiateMsg { admin: "org-admin-1".to_string() });
    assert!(resp.event.is_none());
    assert!(resp.data.is_none());
    let info = state.get_contract_info().expect("contract info must be set");
    assert_eq!(info.version, CONTRACT_VERSION);
    assert_eq!(info.creator, "org-admin-1");
}

#[test]
fn added_equipment_is_returned_exactly() {
    let mut state = State::new();
    let r = execute_add_equipment(
        &mut state,
        "pump-1".to_string(),
        "Pump".to_string(),
        "Main pump".to_string(),
        1000,
    );
    let resp = r.expect("add_equipment is not gated");
    let ev = resp.event.expect("an event is emitted");
    assert_eq!(ev.name, "equipment_added");
    assert_eq!(ev.attributes.len(), 1);
    assert_eq!(ev.attributes[0].key, "id");
    assert_eq!(ev.attributes[0].value, "pump-1");

    let info = query_equipment_info(&state, "pump-1").expect("present key");
    let e = info.equipment.expect("present key yields a record");
    assert_eq!(e.id, "pump-1");
    assert_eq!(e.name, "Pump");
    assert_eq!(e.description, "Main pump");
    assert_eq!(e.usage_threshold, 1000);
    assert_eq!(e.last_maintenance, 0);
    assert_eq!(e.total_usage, 0);
}

#[test]
fn removed_equipment_is_not_found() {
    let mut state = State::new();
    seed_user(&mut state, "boss", UserRole::Admin, "org-1");
    add_pump(&mut state, "pump-1", 1000);
    let r = execute_remove_equipment(&mut state, &env("boss", 5), "pump-1".to_string());
    assert!(r.is_ok());
    let q = query_equipment_info(&state, "pump-1");
    assert_eq!(q.unwrap_err(), ContractError::NotFound);
}

#[test]
fn remove_equipment_requires_admin() {
    let mut state = State::new();
    seed_user(&mut state, "eng-1", UserRole::Engineer, "org-1");
    add_pump(&mut state, "pump-1", 1000);
    let r = execute_remove_equipment(&mut state, &env("eng-1", 5), "pump-1".to_string());
    assert_eq!(r.unwrap_err(), ContractError::Unauthorized);
    assert!(query_equipment_info(&state, "pump-1").is_ok());
}

#[test]
fn removing_absent_equipment_is_not_an_error() {
    let mut state = State::new();
    seed_user(&mut state, "boss", UserRole::Admin, "org-1");
    let r = execute_remove_equipment(&mut state, &env("boss", 5), "ghost".to_string());
    assert!(r.is_ok());
}

#[test]
fn log_maintenance_by_non_engineer_fails_and_changes_nothing() {
    let mut state = State::new();
    seed_user(&mut state, "boss", UserRole::Admin, "org-1");
    add_pump(&mut state, "pump-1", 1000);
    let before = query_maintenance_history(&state, "pump-1").unwrap().logs.len();
    let r = execute_log_maintenance(
        &mut state,
        &env("boss", 42),
        "pump-1".to_string(),
        "inspection".to_string(),
        "ok".to_string(),
    );
    assert_eq!(r.unwrap_err(), ContractError::Unauthorized);
    let after = query_maintenance_history(&state, "pump-1").unwrap().logs.len();
    assert_eq!(before, after);
}

#[test]
fn log_maintenance_by_unknown_caller_fails() {
    let mut state = State::new();
    add_pump(&mut state, "pump-1", 1000);
    let r = execute_log_maintenance(
        &mut state,
        &env("nobody", 42),
        "pump-1".to_string(),
        "inspection".to_string(),
        "ok".to_string(),
    );
    assert_eq!(r.unwrap_err(), ContractError::Unauthorized);
}

#[test]
fn log_maintenance_by_engineer_appends_one_unapproved_entry() {
    let mut state = State::new();
    seed_user(&mut state, "eng-1", UserRole::Engineer, "org-1");
    add_pump(&mut state, "pump-1", 1000);
    let r = execute_log_maintenance(
        &mut state,
        &env("eng-1", 42),
        "pump-1".to_string(),
        "inspection".to_string(),
        "ok".to_string(),
    );
    assert!(r.is_ok());
    let history = query_maintenance_history(&state, "pump-1").unwrap();
    assert_eq!(history.logs.len(), 1);
    let entry = &history.logs[0];
    assert_eq!(entry.equipment_id, "pump-1");
    assert_eq!(entry.performed_by, "eng-1");
    assert!(!entry.supervisor_approved);
    assert_eq!(entry.timestamp, 42);
    assert_eq!(entry.maintenance_type, "inspection");
    assert_eq!(entry.notes, "ok");

    let r2 = execute_log_maintenance(
        &mut state,
        &env("eng-1", 43),
        "pump-1".to_string(),
        "repair".to_string(),
        "replaced seal".to_string(),
    );
    assert!(r2.is_ok());
    let history2 = query_maintenance_history(&state, "pump-1").unwrap();
    assert_eq!(history2.logs.len(), 2);
    assert_eq!(history2.logs[0].maintenance_type, "inspection");
    assert_eq!(history2.logs[1].maintenance_type, "repair");
}

#[test]
fn clear_inventory_empties_equipment_and_logs() {
    let mut state = State::new();
    seed_user(&mut state, "boss", UserRole::Admin, "org-1");
    seed_user(&mut state, "eng-1", UserRole::Engineer, "org-1");
    add_pump(&mut state, "pump-1", 1000);
    add_pump(&mut state, "pump-2", 2000);
    execute_log_maintenance(
        &mut state,
        &env("eng-1", 7),
        "pump-1".to_string(),
        "inspection".to_string(),
        "ok".to_string(),
    )
    .unwrap();
    let r = execute_clear_inventory(&mut state, &env("boss", 9));
    assert!(r.is_ok());
    let list = query_list_equipment(&state).unwrap();
    assert!(list.equipment.is_empty());
    let history = query_maintenance_history(&state, "pump-1").unwrap();
    assert!(history.logs.is_empty());
    // Users survive a clear.
    assert!(query_user_details(&state, "eng-1").is_ok());
}

#[test]
fn clear_inventory_requires_admin() {
    let mut state = State::new();
    seed_user(&mut state, "sup-1", UserRole::Supervisor, "org-1");
    add_pump(&mut state, "pump-1", 1000);
    let r = execute_clear_inventory(&mut state, &env("sup-1", 9));
    assert_eq!(r.unwrap_err(), ContractError::Unauthorized);
    assert_eq!(query_list_equipment(&state).unwrap().equipment.len(), 1);
}

#[test]
fn add_user_by_non_admin_fails_and_user_map_is_unchanged() {
    let mut state = State::new();
    seed_user(&mut state, "eng-1", UserRole::Engineer, "org-1");
    let r = execute_add_user(
        &mut state,
        &env("eng-1", 1),
        "new-user".to_string(),
        UserRole::Engineer,
    );
    assert_eq!(r.unwrap_err(), ContractError::Unauthorized);
    let q = query_user_details(&state, "new-user");
    assert_eq!(q.unwrap_err(), ContractError::NotFound);
}

#[test]
fn add_user_by_admin_is_returned_with_admins_organization() {
    let mut state = State::new();
    seed_user(&mut state, "boss", UserRole::Admin, "org-7");
    let r = execute_add_user(
        &mut state,
        &env("boss", 1),
        "sup-9".to_string(),
        UserRole::Supervisor,
    );
    let resp = r.unwrap();
    let ev = resp.event.unwrap();
    assert_eq!(ev.name, "user_added");
    assert_eq!(ev.attributes.len(), 2);
    assert_eq!(ev.attributes[0].key, "email");
    assert_eq!(ev.attributes[0].value, "sup-9");
    assert_eq!(ev.attributes[1].key, "role");
    assert_eq!(ev.attributes[1].value, "supervisor");

    let details = query_user_details(&state, "sup-9").unwrap();
    let u = details.user.expect("present key yields a record");
    assert_eq!(u.email, "sup-9");
    assert!(matches!(u.role, UserRole::Supervisor));
    assert_eq!(u.organization_id, "org-7");
}

#[test]
fn remove_worker_requires_admin_and_deletes_the_record() {
    let mut state = State::new();
    seed_user(&mut state, "boss", UserRole::Admin, "org-1");
    seed_user(&mut state, "eng-1", UserRole::Engineer, "org-1");
    let refused = execute_remove_worker(&mut state, &env("eng-1", 1), "boss".to_string());
    assert_eq!(refused.unwrap_err(), ContractError::Unauthorized);
    let r = execute_remove_worker(&mut state, &env("boss", 1), "eng-1".to_string());
    assert!(r.is_ok());
    let q = query_user_details(&state, "eng-1");
    assert_eq!(q.unwrap_err(), ContractError::NotFound);
}

#[test]
fn update_threshold_replaces_only_the_threshold() {
    let mut state = State::new();
    add_pump(&mut state, "pump-1", 1000);
    let r = execute_update_threshold(&mut state, "pump-1".to_string(), 2500);
    let ev = r.unwrap().event.unwrap();
    assert_eq!(ev.name, "threshold_updated");
    assert_eq!(ev.attributes.len(), 2);
    assert_eq!(ev.attributes[0].key, "equipment_id");
    assert_eq!(ev.attributes[0].value, "pump-1");
    assert_eq!(ev.attributes[1].key, "new_threshold");
    assert_eq!(ev.attributes[1].value, "2500");
    let e = query_equipment_info(&state, "pump-1").unwrap().equipment.unwrap();
    assert_eq!(e.usage_threshold, 2500);
    assert_eq!(e.name, "Pump");
    assert_eq!(e.last_maintenance, 0);
}

#[test]
fn update_threshold_accepts_the_largest_value() {
    let mut state = State::new();
    add_pump(&mut state, "pump-1", 0);
    let r = execute_update_threshold(&mut state, "pump-1".to_string(), u64::MAX);
    let ev = r.unwrap().event.unwrap();
    assert_eq!(ev.attributes[1].value, "18446744073709551615");
    let e = query_equipment_info(&state, "pump-1").unwrap().equipment.unwrap();
    assert_eq!(e.usage_threshold, u64::MAX);
}

#[test]
fn update_threshold_on_unknown_key_is_not_found() {
    let mut state = State::new();
    let r = execute_update_threshold(&mut state, "ghost".to_string(), 2500);
    assert_eq!(r.unwrap_err(), ContractError::NotFound);
}

#[test]
fn reset_maintenance_moves_the_timer_for_a_supervisor() {
    let mut state = State::new();
    seed_user(&mut state, "sup-1", UserRole::Supervisor, "org-1");
    add_pump(&mut state, "pump-1", 1000);
    let r = execute_reset_maintenance(&mut state, &env("sup-1", 777), "pump-1".to_string());
    assert!(r.is_ok());
    let e = query_equipment_info(&state, "pump-1").unwrap().equipment.unwrap();
    assert_eq!(e.last_maintenance, 777);
    assert_eq!(e.usage_threshold, 1000);
}

#[test]
fn reset_maintenance_checks_role_before_existence() {
    let mut state = State::new();
    seed_user(&mut state, "eng-1", UserRole::Engineer, "org-1");
    seed_user(&mut state, "sup-1", UserRole::Supervisor, "org-1");
    let refused = execute_reset_maintenance(&mut state, &env("eng-1", 7), "ghost".to_string());
    assert_eq!(refused.unwrap_err(), ContractError::Unauthorized);
    let missing = execute_reset_maintenance(&mut state, &env("sup-1", 7), "ghost".to_string());
    assert_eq!(missing.unwrap_err(), ContractError::NotFound);
}

#[test]
fn list_equipment_is_sorted_ascending_by_id() {
    let mut state = State::new();
    add_pump(&mut state, "pump-b", 2);
    add_pump(&mut state, "pump-a", 1);
    add_pump(&mut state, "pump-c", 3);
    let list = query_list_equipment(&state).unwrap();
    let ids: Vec<&str> = list.equipment.iter().map(|e| e.id.as_str()).collect();
    assert_eq!(ids, vec!["pump-a", "pump-b", "pump-c"]);

    let resp = execute_list_equipment(&state).unwrap();
    assert!(resp.event.is_none());
    let data = resp.data.unwrap();
    assert_eq!(data.equipment.len(), 3);
    assert_eq!(data.equipment[0].id, "pump-a");
}

#[test]
fn adding_an_existing_id_overwrites_the_record() {
    let mut state = State::new();
    add_pump(&mut state, "pump-1", 1000);
    let r = execute_add_equipment(
        &mut state,
        "pump-1".to_string(),
        "Pump II".to_string(),
        "Spare pump".to_string(),
        500,
    );
    assert!(r.is_ok());
    let list = query_list_equipment(&state).unwrap();
    assert_eq!(list.equipment.len(), 1);
    let e = &list.equipment[0];
    assert_eq!(e.name, "Pump II");
    assert_eq!(e.usage_threshold, 500);
}

#[test]
fn maintenance_history_of_unknown_key_is_empty() {
    let state = State::new();
    let history = query_maintenance_history(&state, "ghost").unwrap();
    assert!(history.logs.is_empty());
}

#[test]
fn dispatchers_route_commands_and_queries() {
    let mut state = State::new();
    instantiate(&mut state, InstantiateMsg { admin: "org-admin-1".to_string() });
    seed_user(&mut state, "eng-1", UserRole::Engineer, "org-1");
    let added = execute(
        &mut state,
        &env("anyone", 1),
        ExecuteMsg::AddEquipment {
            id: "pump-1".to_string(),
            name: "Pump".to_string(),
            description: "Main pump".to_string(),
            usage_threshold: 1000,
        },
    );
    assert!(added.is_ok());
    let logged = execute(
        &mut state,
        &env("eng-1", 42),
        ExecuteMsg::LogMaintenance {
            equipment_id: "pump-1".to_string(),
            maintenance_type: "inspection".to_string(),
            notes: "ok".to_string(),
        },
    );
    assert!(logged.is_ok());
    match query(
        &state,
        QueryMsg::GetMaintenanceHistory { equipment_id: "pump-1".to_string() },
    )
    .unwrap()
    {
        QueryAnswer::MaintenanceHistory(h) => assert_eq!(h.logs.len(), 1),
        _ => panic!("wrong answer shape"),
    }
    match query(&state, QueryMsg::ListEquipment {}).unwrap() {
        QueryAnswer::EquipmentList(l) => assert_eq!(l.equipment.len(), 1),
        _ => panic!("wrong answer shape"),
    }
    match query(&state, QueryMsg::GetEquipmentInfo { equipment_id: "pump-1".to_string() }).unwrap()
    {
        QueryAnswer::EquipmentInfo(i) => assert_eq!(i.equipment.unwrap().id, "pump-1"),
        _ => panic!("wrong answer shape"),
    }
    let unknown = query(&state, QueryMsg::GetUserDetails { email: "ghost".to_string() });
    assert_eq!(unknown.unwrap_err(), ContractError::NotFound);
}

#[test]
fn end_to_end_scenario() {
    let mut state = State::new();
    instantiate(&mut state, InstantiateMsg { admin: "org-admin-1".to_string() });
    let added = execute_add_equipment(
        &mut state,
        "pump-1".to_string(),
        "Pump".to_string(),
        "Main pump".to_string(),
        1000,
    );
    assert!(added.is_ok());
    seed_user(&mut state, "eng-1", UserRole::Engineer, "org-1");
    let logged = execute_log_maintenance(
        &mut state,
        &env("eng-1", 100),
        "pump-1".to_string(),
        "inspection".to_string(),
        "ok".to_string(),
    );
    assert!(logged.is_ok());
    let history = query_maintenance_history(&state, "pump-1").unwrap();
    assert_eq!(history.logs.len(), 1);
    let entry = &history.logs[0];
    assert_eq!(entry.equipment_id, "pump-1");
    assert_eq!(entry.performed_by, "eng-1");
    assert!(!entry.supervisor_approved);
    assert_eq!(entry.maintenance_type, "inspection");
    assert_eq!(entry.notes, "ok");
}
