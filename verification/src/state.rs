//! Persisted entities of the maintenance scheduler.
//!
//! Each executable type carries a ghost view whose string fields are
//! `Seq<char>`; every contract in this crate speaks over those views.

use vstd::prelude::*;

verus! {

/// Authorization level held by a `User`. The three roles are mutually
/// exclusive: a caller holds exactly one of them.
#[derive(Clone, Copy, Debug, PartialEq, Eq, Structural)]
pub enum UserRole {
    Engineer,
    Supervisor,
    Admin,
}

/// Singleton record written once at initialization and immutable afterward
/// (the host invokes initialization exactly once).
#[derive(Debug)]
pub struct ContractInfo {
    pub version: String,
    pub creator: String,
}

/// Ghost image of [`ContractInfo`].
#[verifier::ext_equal]
pub struct ContractInfoView {
    pub version: Seq<char>,
    pub creator: Seq<char>,
}

impl View for ContractInfo {
    type V = ContractInfoView;

    open spec fn view(&self) -> ContractInfoView {
        ContractInfoView { version: self.version@, creator: self.creator@ }
    }
}

impl Clone for ContractInfo {
    fn clone(&self) -> (r: Self)
        ensures
            r@ == self@,
    {
        ContractInfo { version: self.version.clone(), creator: self.creator.clone() }
    }
}

/// One tracked physical asset, keyed by `id`.
///
/// `total_usage` is declared by the data model but no command ever
/// increments it; it stays `0` from creation on.
#[derive(Debug)]
pub struct Equipment {
    pub id: String,
    pub name: String,
    pub description: String,
    pub usage_threshold: u64,
    pub last_maintenance: u64,
    pub total_usage: u64,
}

/// Ghost image of [`Equipment`].
#[verifier::ext_equal]
pub struct EquipmentView {
    pub id: Seq<char>,
    pub name: Seq<char>,
    pub description: Seq<char>,
    pub usage_threshold: u64,
    pub last_maintenance: u64,
    pub total_usage: u64,
}

impl View for Equipment {
    type V = EquipmentView;

    open spec fn view(&self) -> EquipmentView {
        EquipmentView {
            id: self.id@,
            name: self.name@,
            description: self.description@,
            usage_threshold: self.usage_threshold,
            last_maintenance: self.last_maintenance,
            total_usage: self.total_usage,
        }
    }
}

impl Clone for Equipment {
    fn clone(&self) -> (r: Self)
        ensures
            r@ == self@,
    {
        Equipment {
            id: self.id.clone(),
            name: self.name.clone(),
            description: self.description.clone(),
            usage_threshold: self.usage_threshold,
            last_maintenance: self.last_maintenance,
            total_usage: self.total_usage,
        }
    }
}

/// The ghost images of a sequence of equipment records.
pub open spec fn equipment_views(s: Seq<Equipment>) -> Seq<EquipmentView> {
    s.map_values(|e: Equipment| e@)
}

/// One maintenance event against one piece of equipment. Entries are only
/// ever appended to an equipment's list or deleted together with it, never
/// edited in place.
///
/// `supervisor_approved` is set `false` at creation and no command
/// transitions it to `true`; approval is unreachable state in this design.
#[derive(Debug)]
pub struct MaintenanceLog {
    pub equipment_id: String,
    pub performed_by: String,
    pub supervisor_approved: bool,
    pub timestamp: u64,
    pub maintenance_type: String,
    pub notes: String,
}

/// Ghost image of [`MaintenanceLog`].
#[verifier::ext_equal]
pub struct MaintenanceLogView {
    pub equipment_id: Seq<char>,
    pub performed_by: Seq<char>,
    pub supervisor_approved: bool,
    pub timestamp: u64,
    pub maintenance_type: Seq<char>,
    pub notes: Seq<char>,
}

impl View for MaintenanceLog {
    type V = MaintenanceLogView;

    open spec fn view(&self) -> MaintenanceLogView {
        MaintenanceLogView {
            equipment_id: self.equipment_id@,
            performed_by: self.performed_by@,
            supervisor_approved: self.supervisor_approved,
            timestamp: self.timestamp,
            maintenance_type: self.maintenance_type@,
            notes: self.notes@,
        }
    }
}

impl Clone for MaintenanceLog {
    fn clone(&self) -> (r: Self)
        ensures
            r@ == self@,
    {
        MaintenanceLog {
            equipment_id: self.equipment_id.clone(),
            performed_by: self.performed_by.clone(),
            supervisor_approved: self.supervisor_approved,
            timestamp: self.timestamp,
            maintenance_type: self.maintenance_type.clone(),
            notes: self.notes.clone(),
        }
    }
}

/// One principal, keyed in the store by resolved caller identity.
#[derive(Debug)]
pub struct User {
    pub email: String,
    pub role: UserRole,
    pub organization_id: String,
}

/// Ghost image of [`User`].
#[verifier::ext_equal]
pub struct UserView {
    pub email: Seq<char>,
    pub role: UserRole,
    pub organization_id: Seq<char>,
}

impl View for User {
    type V = UserView;

    open spec fn view(&self) -> UserView {
        UserView { email: self.email@, role: self.role, organization_id: self.organization_id@ }
    }
}

impl Clone for User {
    fn clone(&self) -> (r: Self)
        ensures
            r@ == self@,
    {
        User {
            email: self.email.clone(),
            role: self.role,
            organization_id: self.organization_id.clone(),
        }
    }
}

/// Organization record. It is part of the data model but no command or
/// query ever reads or writes it; it is kept only so that the model is
/// complete.
#[derive(Debug)]
pub struct Organization {
    pub id: String,
    pub name: String,
    pub admin: String,
    pub gas_balance: u128,
}

/// Ghost image of [`Organization`].
#[verifier::ext_equal]
pub struct OrganizationView {
    pub id: Seq<char>,
    pub name: Seq<char>,
    pub admin: Seq<char>,
    pub gas_balance: u128,
}

impl View for Organization {
    type V = OrganizationView;

    open spec fn view(&self) -> OrganizationView {
        OrganizationView {
            id: self.id@,
            name: self.name@,
            admin: self.admin@,
            gas_balance: self.gas_balance,
        }
    }
}

impl Clone for Organization {
    fn clone(&self) -> (r: Self)
        ensures
            r@ == self@,
    {
        Organization {
            id: self.id.clone(),
            name: self.name.clone(),
            admin: self.admin.clone(),
            gas_balance: self.gas_balance,
        }
    }
}

} // verus!
