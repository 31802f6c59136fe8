//! The command dispatcher and its handlers.
//!
//! Every handler follows the same steps: check the command's authorization
//! against the caller's user record, load what the mutation needs, apply
//! it, and describe the change as an event. A failed command leaves the
//! state exactly as it was; the spec functions beside each handler say what
//! a successful one does to the state's view.
//!
//! `AddEquipment` and `UpdateThreshold` are deliberately not gated: that is
//! the one consistent policy this design fixes for them. `LogMaintenance`
//! requires `Engineer`, `ResetMaintenance` requires `Supervisor`, and the
//! remaining mutations require `Admin`.

use vstd::prelude::*;

verus! {

use crate::auth::caller_role;
use crate::auth::is_authorized;
use crate::msg::CONTRACT_VERSION;
use crate::msg::ContractError;
use crate::msg::Env;
use crate::msg::EquipmentListResponse;
use crate::msg::ExecuteMsg;
use crate::msg::InstantiateMsg;
use crate::msg::Response;
use crate::msg::ResponseView;
use crate::msg::dec_digits;
use crate::msg::event0;
use crate::msg::event1;
use crate::msg::event2;
use crate::msg::u64_to_decimal;
use crate::state::ContractInfo;
use crate::state::ContractInfoView;
use crate::state::Equipment;
use crate::state::EquipmentView;
use crate::state::MaintenanceLog;
use crate::state::MaintenanceLogView;
use crate::state::User;
use crate::state::UserRole;
use crate::state::UserView;
use crate::store::State;
use crate::store::StateView;
use crate::store::lists_equipment;

/// The equipment record `AddEquipment` creates: the submitted fields, with
/// the maintenance timer and the usage counter at zero.
pub open spec fn new_equipment_view(
    id: Seq<char>,
    name: Seq<char>,
    description: Seq<char>,
    usage_threshold: u64,
) -> EquipmentView {
    EquipmentView { id, name, description, usage_threshold, last_maintenance: 0, total_usage: 0 }
}

/// The state after `AddEquipment`.
pub open spec fn add_equipment_next(
    s: StateView,
    id: Seq<char>,
    name: Seq<char>,
    description: Seq<char>,
    usage_threshold: u64,
) -> StateView {
    StateView {
        equipment: s.equipment.insert(id, new_equipment_view(id, name, description, usage_threshold)),
        ..s
    }
}

/// The log entry `LogMaintenance` appends: approval starts `false` and no
/// command ever sets it `true`.
pub open spec fn made_log_entry(
    caller: Seq<char>,
    now: u64,
    equipment_id: Seq<char>,
    maintenance_type: Seq<char>,
    notes: Seq<char>,
) -> MaintenanceLogView {
    MaintenanceLogView {
        equipment_id,
        performed_by: caller,
        supervisor_approved: false,
        timestamp: now,
        maintenance_type,
        notes,
    }
}

/// The state after an authorized `LogMaintenance`.
pub open spec fn log_maintenance_next(
    s: StateView,
    caller: Seq<char>,
    now: u64,
    equipment_id: Seq<char>,
    maintenance_type: Seq<char>,
    notes: Seq<char>,
) -> StateView {
    StateView {
        logs: s.logs.insert(
            equipment_id,
            s.logs_or_empty(equipment_id).push(
                made_log_entry(caller, now, equipment_id, maintenance_type, notes),
            ),
        ),
        ..s
    }
}

/// The state after `UpdateThreshold` on a present key.
pub open spec fn update_threshold_next(s: StateView, equipment_id: Seq<char>, new_threshold: u64) -> StateView {
    StateView {
        equipment: s.equipment.insert(
            equipment_id,
            EquipmentView { usage_threshold: new_threshold, ..s.equipment[equipment_id] },
        ),
        ..s
    }
}

/// The state after an authorized `RemoveEquipment`: the record and its log
/// list both go, whether or not they were there.
pub open spec fn remove_equipment_next(s: StateView, id: Seq<char>) -> StateView {
    StateView { equipment: s.equipment.remove(id), logs: s.logs.remove(id), ..s }
}

/// The state after an authorized `ClearInventory`: no equipment and no
/// logs are left; users and contract info stay.
pub open spec fn clear_inventory_next(s: StateView) -> StateView {
    StateView {
        equipment: Map::<Seq<char>, EquipmentView>::empty(),
        logs: Map::<Seq<char>, Seq<MaintenanceLogView>>::empty(),
        ..s
    }
}

/// The state after an authorized `AddUser`: the new user is keyed by the
/// submitted email and inherits the calling admin's organization.
pub open spec fn add_user_next(
    s: StateView,
    caller: Seq<char>,
    email: Seq<char>,
    role: UserRole,
) -> StateView {
    StateView {
        users: s.users.insert(
            email,
            UserView { email, role, organization_id: s.users[caller].organization_id },
        ),
        ..s
    }
}

/// The state after an authorized `RemoveWorker`.
pub open spec fn remove_worker_next(s: StateView, email: Seq<char>) -> StateView {
    StateView { users: s.users.remove(email), ..s }
}

/// The state after an authorized `ResetMaintenance` on a present key: only
/// the maintenance timer moves.
pub open spec fn reset_maintenance_next(s: StateView, now: u64, equipment_id: Seq<char>) -> StateView {
    StateView {
        equipment: s.equipment.insert(
            equipment_id,
            EquipmentView { last_maintenance: now, ..s.equipment[equipment_id] },
        ),
        ..s
    }
}

/// One-time setup: records the contract version and the creator identity.
/// The host invokes this exactly once, before any command or query.
pub fn instantiate(state: &mut State, msg: InstantiateMsg) -> (r: Response)
    requires
        old(state).wf(),
    ensures
        final (state).wf(),
        final (state)@ == (StateView {
            contract_info: Some(
                ContractInfoView { version: CONTRACT_VERSION@, creator: msg.admin@ },
            ),
            ..old(state)@
        }),
        r@ == ResponseView::empty(),
{
    state.set_contract_info(
        ContractInfo { version: CONTRACT_VERSION.to_owned(), creator: msg.admin },
    );
    Response { event: None, data: None }
}

/// Creates or overwrites an equipment record from the submitted fields.
/// Not authorization-gated.
pub fn execute_add_equipment(
    state: &mut State,
    id: String,
    name: String,
    description: String,
    usage_threshold: u64,
) -> (r: Result<Response, ContractError>)
    requires
        old(state).wf(),
    ensures
        final (state).wf(),
        final (state)@ == add_equipment_next(old(state)@, id@, name@, description@, usage_threshold),
        r matches Ok(resp) && resp@ == ResponseView::with_event(
            "equipment_added"@,
            seq![("id"@, id@)],
        ),
{
    let equipment = Equipment {
        id: id.clone(),
        name,
        description,
        usage_threshold,
        last_maintenance: 0,
        total_usage: 0,
    };
    proof {
        assert(equipment@ =~= new_equipment_view(id@, equipment.name@, equipment.description@, usage_threshold));
    }
    state.put_equipment(equipment);
    Ok(Response { event: Some(event1("equipment_added", "id", id)), data: None })
}

/// Appends one maintenance entry for the caller. Only an `Engineer` may
/// log maintenance; the entry always starts unapproved.
pub fn execute_log_maintenance(
    state: &mut State,
    env: &Env,
    equipment_id: String,
    maintenance_type: String,
    notes: String,
) -> (r: Result<Response, ContractError>)
    requires
        old(state).wf(),
    ensures
        final (state).wf(),
        is_authorized(caller_role(old(state)@, env.sender@), UserRole::Engineer) ==> {
            &&& final (state)@ == log_maintenance_next(
                old(state)@,
                env.sender@,
                env.block_time,
                equipment_id@,
                maintenance_type@,
                notes@,
            )
            &&& r matches Ok(resp) && resp@ == ResponseView::with_event(
                "maintenance_pending"@,
                seq![("equipment_id"@, equipment_id@)],
            )
        },
        !is_authorized(caller_role(old(state)@, env.sender@), UserRole::Engineer) ==> {
            &&& final (state)@ == old(state)@
            &&& r matches Err(e) && e == ContractError::Unauthorized
        },
{
    if !state.caller_has_role(env.sender.as_str(), UserRole::Engineer) {
        return Err(ContractError::Unauthorized);
    }
    let entry = MaintenanceLog {
        equipment_id: equipment_id.clone(),
        performed_by: env.sender.clone(),
        supervisor_approved: false,
        timestamp: env.block_time,
        maintenance_type,
        notes,
    };
    proof {
        assert(entry@ =~= made_log_entry(
            env.sender@,
            env.block_time,
            equipment_id@,
            entry.maintenance_type@,
            entry.notes@,
        ));
    }
    state.append_log(entry);
    Ok(
        Response {
            event: Some(event1("maintenance_pending", "equipment_id", equipment_id)),
            data: None,
        },
    )
}

/// Replaces the usage threshold of an existing equipment record. Not
/// authorization-gated; an absent key is `NotFound`.
pub fn execute_update_threshold(
    state: &mut State,
    equipment_id: String,
    new_threshold: u64,
) -> (r: Result<Response, ContractError>)
    requires
        old(state).wf(),
    ensures
        final (state).wf(),
        old(state)@.equipment.contains_key(equipment_id@) ==> {
            &&& final (state)@ == update_threshold_next(old(state)@, equipment_id@, new_threshold)
            &&& r matches Ok(resp) && resp@ == ResponseView::with_event(
                "threshold_updated"@,
                seq![
                    ("equipment_id"@, equipment_id@),
                    ("new_threshold"@, dec_digits(new_threshold as nat)),
                ],
            )
        },
        !old(state)@.equipment.contains_key(equipment_id@) ==> {
            &&& final (state)@ == old(state)@
            &&& r matches Err(e) && e == ContractError::NotFound
        },
{
    let loaded = match state.get_equipment(equipment_id.as_str()) {
        Some(e) => e.clone(),
        None => {
            return Err(ContractError::NotFound);
        },
    };
    let updated = Equipment { usage_threshold: new_threshold, ..loaded };
    proof {
        assert(updated@ =~= (EquipmentView {
            usage_threshold: new_threshold,
            ..old(state)@.equipment[equipment_id@]
        }));
    }
    state.put_equipment(updated);
    Ok(
        Response {
            event: Some(
                event2(
                    "threshold_updated",
                    "equipment_id",
                    equipment_id,
                    "new_threshold",
                    u64_to_decimal(new_threshold),
                ),
            ),
            data: None,
        },
    )
}

/// Deletes an equipment record and its maintenance list. Only an `Admin`
/// may remove equipment; an absent key is not an error.
pub fn execute_remove_equipment(state: &mut State, env: &Env, id: String) -> (r: Result<
    Response,
    ContractError,
>)
    requires
        old(state).wf(),
    ensures
        final (state).wf(),
        is_authorized(caller_role(old(state)@, env.sender@), UserRole::Admin) ==> {
            &&& final (state)@ == remove_equipment_next(old(state)@, id@)
            &&& r matches Ok(resp) && resp@ == ResponseView::with_event(
                "equipment_removed"@,
                seq![("id"@, id@)],
            )
        },
        !is_authorized(caller_role(old(state)@, env.sender@), UserRole::Admin) ==> {
            &&& final (state)@ == old(state)@
            &&& r matches Err(e) && e == ContractError::Unauthorized
        },
{
    if !state.caller_has_role(env.sender.as_str(), UserRole::Admin) {
        return Err(ContractError::Unauthorized);
    }
    state.remove_equipment(id.as_str());
    state.remove_logs(id.as_str());
    Ok(Response { event: Some(event1("equipment_removed", "id", id)), data: None })
}

/// Deletes every equipment record and every maintenance list. Only an
/// `Admin` may clear the inventory.
pub fn execute_clear_inventory(state: &mut State, env: &Env) -> (r: Result<Response, ContractError>)
    requires
        old(state).wf(),
    ensures
        final (state).wf(),
        is_authorized(caller_role(old(state)@, env.sender@), UserRole::Admin) ==> {
            &&& final (state)@ == clear_inventory_next(old(state)@)
            &&& r matches Ok(resp) && resp@ == ResponseView::with_event(
                "inventory_cleared"@,
                Seq::empty(),
            )
        },
        !is_authorized(caller_role(old(state)@, env.sender@), UserRole::Admin) ==> {
            &&& final (state)@ == old(state)@
            &&& r matches Err(e) && e == ContractError::Unauthorized
        },
{
    if !state.caller_has_role(env.sender.as_str(), UserRole::Admin) {
        return Err(ContractError::Unauthorized);
    }
    state.clear_inventory_namespaces();
    Ok(Response { event: Some(event0("inventory_cleared")), data: None })
}

/// The wire label of a role.
pub open spec fn role_label(role: UserRole) -> Seq<char> {
    match role {
        UserRole::Engineer => "engineer"@,
        UserRole::Supervisor => "supervisor"@,
        UserRole::Admin => "admin"@,
    }
}

/// Names a role for an event attribute.
pub fn role_name(role: UserRole) -> (r: &'static str)
    ensures
        r@ == role_label(role),
{
    match role {
        UserRole::Engineer => "engineer",
        UserRole::Supervisor => "supervisor",
        UserRole::Admin => "admin",
    }
}

/// Creates or overwrites a user record keyed by the submitted email; the
/// record inherits the calling admin's organization. Only an `Admin` may
/// add users.
pub fn execute_add_user(state: &mut State, env: &Env, email: String, role: UserRole) -> (r: Result<
    Response,
    ContractError,
>)
    requires
        old(state).wf(),
    ensures
        final (state).wf(),
        is_authorized(caller_role(old(state)@, env.sender@), UserRole::Admin) ==> {
            &&& final (state)@ == add_user_next(old(state)@, env.sender@, email@, role)
            &&& r matches Ok(resp) && resp@ == ResponseView::with_event(
                "user_added"@,
                seq![("email"@, email@), ("role"@, role_label(role))],
            )
        },
        !is_authorized(caller_role(old(state)@, env.sender@), UserRole::Admin) ==> {
            &&& final (state)@ == old(state)@
            &&& r matches Err(e) && e == ContractError::Unauthorized
        },
{
    let organization_id = match state.get_user(env.sender.as_str()) {
        Some(u) => {
            if !matches!(u.role, UserRole::Admin) {
                return Err(ContractError::Unauthorized);
            }
            u.organization_id.clone()
        },
        None => {
            return Err(ContractError::Unauthorized);
        },
    };
    let user = User { email: email.clone(), role, organization_id };
    let key = email.clone();
    state.put_user(key, user);
    Ok(
        Response {
            event: Some(event2("user_added", "email", email, "role", role_name(role).to_owned())),
            data: None,
        },
    )
}

/// Deletes the user record keyed by the submitted email. Only an `Admin`
/// may remove workers; an absent key is not an error.
pub fn execute_remove_worker(state: &mut State, env: &Env, email: String) -> (r: Result<
    Response,
    ContractError,
>)
    requires
        old(state).wf(),
    ensures
        final (state).wf(),
        is_authorized(caller_role(old(state)@, env.sender@), UserRole::Admin) ==> {
            &&& final (state)@ == remove_worker_next(old(state)@, email@)
            &&& r matches Ok(resp) && resp@ == ResponseView::with_event(
                "worker_removed"@,
                seq![("email"@, email@)],
            )
        },
        !is_authorized(caller_role(old(state)@, env.sender@), UserRole::Admin) ==> {
            &&& final (state)@ == old(state)@
            &&& r matches Err(e) && e == ContractError::Unauthorized
        },
{
    if !state.caller_has_role(env.sender.as_str(), UserRole::Admin) {
        return Err(ContractError::Unauthorized);
    }
    state.remove_user(email.as_str());
    Ok(Response { event: Some(event1("worker_removed", "email", email)), data: None })
}

/// Moves an existing equipment record's maintenance timer to the block
/// time. Only a `Supervisor` may reset it; the role is checked before the
/// record is loaded, and an absent key is `NotFound`. No log entry's
/// approval flag is touched.
pub fn execute_reset_maintenance(state: &mut State, env: &Env, equipment_id: String) -> (r: Result<
    Response,
    ContractError,
>)
    requires
        old(state).wf(),
    ensures
        final (state).wf(),
        !is_authorized(caller_role(old(state)@, env.sender@), UserRole::Supervisor) ==> {
            &&& final (state)@ == old(state)@
            &&& r matches Err(e) && e == ContractError::Unauthorized
        },
        is_authorized(caller_role(old(state)@, env.sender@), UserRole::Supervisor)
            && old(state)@.equipment.contains_key(equipment_id@) ==> {
            &&& final (state)@ == reset_maintenance_next(old(state)@, env.block_time, equipment_id@)
            &&& r matches Ok(resp) && resp@ == ResponseView::with_event(
                "maintenance_reset"@,
                seq![("equipment_id"@, equipment_id@)],
            )
        },
        is_authorized(caller_role(old(state)@, env.sender@), UserRole::Supervisor) && !old(
            state,
        )@.equipment.contains_key(equipment_id@) ==> {
            &&& final (state)@ == old(state)@
            &&& r matches Err(e) && e == ContractError::NotFound
        },
{
    if !state.caller_has_role(env.sender.as_str(), UserRole::Supervisor) {
        return Err(ContractError::Unauthorized);
    }
    let loaded = match state.get_equipment(equipment_id.as_str()) {
        Some(e) => e.clone(),
        None => {
            return Err(ContractError::NotFound);
        },
    };
    let updated = Equipment { last_maintenance: env.block_time, ..loaded };
    proof {
        assert(updated@ =~= (EquipmentView {
            last_maintenance: env.block_time,
            ..old(state)@.equipment[equipment_id@]
        }));
    }
    state.put_equipment(updated);
    Ok(
        Response {
            event: Some(event1("maintenance_reset", "equipment_id", equipment_id)),
            data: None,
        },
    )
}

/// Hands back every equipment record as response data. A read in command
/// shape: it mutates nothing and is open to every caller.
pub fn execute_list_equipment(state: &State) -> (r: Result<Response, ContractError>)
    requires
        state.wf(),
    ensures
        r matches Ok(resp) && resp@.event is None && (resp@.data matches Some(es)
            && lists_equipment(state@, es)),
{
    let equipment = state.list_equipment();
    Ok(Response { event: None, data: Some(EquipmentListResponse { equipment }) })
}

/// Routes one mutating command to its handler. The contract restates, per
/// command, exactly what the handler promises.
pub fn execute(state: &mut State, env: &Env, msg: ExecuteMsg) -> (r: Result<Response, ContractError>)
    requires
        old(state).wf(),
    ensures
        final (state).wf(),
        match msg {
            ExecuteMsg::AddEquipment { id, name, description, usage_threshold } => {
                &&& final (state)@ == add_equipment_next(
                    old(state)@,
                    id@,
                    name@,
                    description@,
                    usage_threshold,
                )
                &&& r matches Ok(resp) && resp@ == ResponseView::with_event(
                    "equipment_added"@,
                    seq![("id"@, id@)],
                )
            },
            ExecuteMsg::LogMaintenance { equipment_id, maintenance_type, notes } => {
                if is_authorized(caller_role(old(state)@, env.sender@), UserRole::Engineer) {
                    &&& final (state)@ == log_maintenance_next(
                        old(state)@,
                        env.sender@,
                        env.block_time,
                        equipment_id@,
                        maintenance_type@,
                        notes@,
                    )
                    &&& r matches Ok(resp) && resp@ == ResponseView::with_event(
                        "maintenance_pending"@,
                        seq![("equipment_id"@, equipment_id@)],
                    )
                } else {
                    &&& final (state)@ == old(state)@
                    &&& r matches Err(e) && e == ContractError::Unauthorized
                }
            },
            ExecuteMsg::UpdateThreshold { equipment_id, new_threshold } => {
                if old(state)@.equipment.contains_key(equipment_id@) {
                    &&& final (state)@ == update_threshold_next(
                        old(state)@,
                        equipment_id@,
                        new_threshold,
                    )
                    &&& r matches Ok(resp) && resp@ == ResponseView::with_event(
                        "threshold_updated"@,
                        seq![
                            ("equipment_id"@, equipment_id@),
                            ("new_threshold"@, dec_digits(new_threshold as nat)),
                        ],
                    )
                } else {
                    &&& final (state)@ == old(state)@
                    &&& r matches Err(e) && e == ContractError::NotFound
                }
            },
            ExecuteMsg::RemoveEquipment { id } => {
                if is_authorized(caller_role(old(state)@, env.sender@), UserRole::Admin) {
                    &&& final (state)@ == remove_equipment_next(old(state)@, id@)
                    &&& r matches Ok(resp) && resp@ == ResponseView::with_event(
                        "equipment_removed"@,
                        seq![("id"@, id@)],
                    )
                } else {
                    &&& final (state)@ == old(state)@
                    &&& r matches Err(e) && e == ContractError::Unauthorized
                }
            },
            ExecuteMsg::ClearInventory {  } => {
                if is_authorized(caller_role(old(state)@, env.sender@), UserRole::Admin) {
                    &&& final (state)@ == clear_inventory_next(old(state)@)
                    &&& r matches Ok(resp) && resp@ == ResponseView::with_event(
                        "inventory_cleared"@,
                        Seq::empty(),
                    )
                } else {
                    &&& final (state)@ == old(state)@
                    &&& r matches Err(e) && e == ContractError::Unauthorized
                }
            },
            ExecuteMsg::AddUser { email, role } => {
                if is_authorized(caller_role(old(state)@, env.sender@), UserRole::Admin) {
                    &&& final (state)@ == add_user_next(old(state)@, env.sender@, email@, role)
                    &&& r matches Ok(resp) && resp@ == ResponseView::with_event(
                        "user_added"@,
                        seq![("email"@, email@), ("role"@, role_label(role))],
                    )
                } else {
                    &&& final (state)@ == old(state)@
                    &&& r matches Err(e) && e == ContractError::Unauthorized
                }
            },
            ExecuteMsg::RemoveWorker { email } => {
                if is_authorized(caller_role(old(state)@, env.sender@), UserRole::Admin) {
                    &&& final (state)@ == remove_worker_next(old(state)@, email@)
                    &&& r matches Ok(resp) && resp@ == ResponseView::with_event(
                        "worker_removed"@,
                        seq![("email"@, email@)],
                    )
                } else {
                    &&& final (state)@ == old(state)@
                    &&& r matches Err(e) && e == ContractError::Unauthorized
                }
            },
            ExecuteMsg::ResetMaintenance { equipment_id } => {
                if !is_authorized(caller_role(old(state)@, env.sender@), UserRole::Supervisor) {
                    &&& final (state)@ == old(state)@
                    &&& r matches Err(e) && e == ContractError::Unauthorized
                } else if old(state)@.equipment.contains_key(equipment_id@) {
                    &&& final (state)@ == reset_maintenance_next(
                        old(state)@,
                        env.block_time,
                        equipment_id@,
                    )
                    &&& r matches Ok(resp) && resp@ == ResponseView::with_event(
                        "maintenance_reset"@,
                        seq![("equipment_id"@, equipment_id@)],
                    )
                } else {
                    &&& final (state)@ == old(state)@
                    &&& r matches Err(e) && e == ContractError::NotFound
                }
            },
            ExecuteMsg::ListEquipment {  } => {
                &&& final (state)@ == old(state)@
                &&& r matches Ok(resp) && resp@.event is None && (resp@.data matches Some(es)
                    && lists_equipment(old(state)@, es))
            },
        },
{
    match msg {
        ExecuteMsg::AddEquipment { id, name, description, usage_threshold } => {
            execute_add_equipment(state, id, name, description, usage_threshold)
        },
        ExecuteMsg::LogMaintenance { equipment_id, maintenance_type, notes } => {
            execute_log_maintenance(state, env, equipment_id, maintenance_type, notes)
        },
        ExecuteMsg::UpdateThreshold { equipment_id, new_threshold } => {
            execute_update_threshold(state, equipment_id, new_threshold)
        },
        ExecuteMsg::RemoveEquipment { id } => execute_remove_equipment(state, env, id),
        ExecuteMsg::ClearInventory {  } => execute_clear_inventory(state, env),
        ExecuteMsg::AddUser { email, role } => execute_add_user(state, env, email, role),
        ExecuteMsg::RemoveWorker { email } => execute_remove_worker(state, env, email),
        ExecuteMsg::ResetMaintenance { equipment_id } => {
            execute_reset_maintenance(state, env, equipment_id)
        },
        ExecuteMsg::ListEquipment {  } => execute_list_equipment(state),
    }
}

} // verus!
