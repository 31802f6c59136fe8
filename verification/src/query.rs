//! The query dispatcher and its handlers. Queries never mutate: they take
//! the state by shared reference.
//!
//! Absent-key policy, applied uniformly: a point lookup fails with
//! `NotFound`; a collection read returns an empty collection.

use vstd::prelude::*;

verus! {

use crate::msg::ContractError;
use crate::msg::EquipmentInfoResponse;
use crate::msg::EquipmentListResponse;
use crate::msg::MaintenanceHistoryResponse;
use crate::msg::QueryMsg;
use crate::msg::UserDetailsResponse;
use crate::store::State;
use crate::store::lists_equipment;

/// Point lookup of one equipment record; an absent key is `NotFound`.
pub fn query_equipment_info(state: &State, equipment_id: &str) -> (r: Result<
    EquipmentInfoResponse,
    ContractError,
>)
    requires
        state.wf(),
    ensures
        state@.equipment.contains_key(equipment_id@) ==> (r matches Ok(resp) && resp@ == Some(
            state@.equipment[equipment_id@],
        )),
        !state@.equipment.contains_key(equipment_id@) ==> (r matches Err(e) && e
            == ContractError::NotFound),
{
    match state.get_equipment(equipment_id) {
        Some(e) => Ok(EquipmentInfoResponse { equipment: Some(e.clone()) }),
        None => Err(ContractError::NotFound),
    }
}

/// Collection read of one equipment's maintenance list, oldest first; an
/// unknown key reads as an empty list.
pub fn query_maintenance_history(state: &State, equipment_id: &str) -> (r: Result<
    MaintenanceHistoryResponse,
    ContractError,
>)
    requires
        state.wf(),
    ensures
        r matches Ok(resp) && resp@ == state@.logs_or_empty(equipment_id@),
{
    match state.get_logs(equipment_id) {
        Some(es) => Ok(MaintenanceHistoryResponse { logs: State::clone_logs(es) }),
        None => Ok(MaintenanceHistoryResponse { logs: Vec::new() }),
    }
}

/// Collection read of every equipment record, in ascending key order.
pub fn query_list_equipment(state: &State) -> (r: Result<EquipmentListResponse, ContractError>)
    requires
        state.wf(),
    ensures
        r matches Ok(resp) && lists_equipment(state@, resp@),
{
    Ok(EquipmentListResponse { equipment: state.list_equipment() })
}

/// Point lookup of one user record by email; an absent key is `NotFound`.
pub fn query_user_details(state: &State, email: &str) -> (r: Result<
    UserDetailsResponse,
    ContractError,
>)
    requires
        state.wf(),
    ensures
        state@.users.contains_key(email@) ==> (r matches Ok(resp) && resp@ == Some(
            state@.users[email@],
        )),
        !state@.users.contains_key(email@) ==> (r matches Err(e) && e == ContractError::NotFound),
{
    match state.get_user(email) {
        Some(u) => Ok(UserDetailsResponse { user: Some(u.clone()) }),
        None => Err(ContractError::NotFound),
    }
}

/// A query's typed result, one variant per query.
#[derive(Debug)]
pub enum QueryAnswer {
    EquipmentInfo(EquipmentInfoResponse),
    MaintenanceHistory(MaintenanceHistoryResponse),
    EquipmentList(EquipmentListResponse),
    UserDetails(UserDetailsResponse),
}

/// Routes one read request to its handler. The contract restates, per
/// query, exactly what the handler promises.
pub fn query(state: &State, msg: QueryMsg) -> (r: Result<QueryAnswer, ContractError>)
    requires
        state.wf(),
    ensures
        match msg {
            QueryMsg::GetEquipmentInfo { equipment_id } => {
                if state@.equipment.contains_key(equipment_id@) {
                    r matches Ok(QueryAnswer::EquipmentInfo(resp)) && resp@ == Some(
                        state@.equipment[equipment_id@],
                    )
                } else {
                    r matches Err(e) && e == ContractError::NotFound
                }
            },
            QueryMsg::GetMaintenanceHistory { equipment_id } => {
                r matches Ok(QueryAnswer::MaintenanceHistory(resp)) && resp@
                    == state@.logs_or_empty(equipment_id@)
            },
            QueryMsg::ListEquipment {  } => {
                r matches Ok(QueryAnswer::EquipmentList(resp)) && lists_equipment(state@, resp@)
            },
            QueryMsg::GetUserDetails { email } => {
                if state@.users.contains_key(email@) {
                    r matches Ok(QueryAnswer::UserDetails(resp)) && resp@ == Some(
                        state@.users[email@],
                    )
                } else {
                    r matches Err(e) && e == ContractError::NotFound
                }
            },
        },
{
    match msg {
        QueryMsg::GetEquipmentInfo { equipment_id } => {
            match query_equipment_info(state, equipment_id.as_str()) {
                Ok(resp) => Ok(QueryAnswer::EquipmentInfo(resp)),
                Err(e) => Err(e),
            }
        },
        QueryMsg::GetMaintenanceHistory { equipment_id } => {
            match query_maintenance_history(state, equipment_id.as_str()) {
                Ok(resp) => Ok(QueryAnswer::MaintenanceHistory(resp)),
                Err(e) => Err(e),
            }
        },
        QueryMsg::ListEquipment {  } => {
            match query_list_equipment(state) {
                Ok(resp) => Ok(QueryAnswer::EquipmentList(resp)),
                Err(e) => Err(e),
            }
        },
        QueryMsg::GetUserDetails { email } => {
            match query_user_details(state, email.as_str()) {
                Ok(resp) => Ok(QueryAnswer::UserDetails(resp)),
                Err(e) => Err(e),
            }
        },
    }
}

} // verus!
