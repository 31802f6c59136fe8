//! Messages exchanged with the host, and the typed results they produce.
//!
//! The host decodes the wire envelope into these shapes before calling the
//! dispatchers; structurally invalid input never reaches this crate.

use vstd::prelude::*;

verus! {

use crate::state::Equipment;
use crate::state::EquipmentView;
use crate::state::equipment_views;
use crate::state::MaintenanceLog;
use crate::state::MaintenanceLogView;
use crate::state::User;
use crate::state::UserRole;
use crate::state::UserView;
use crate::store::log_views;

/// Version tag recorded in the contract-info singleton.
pub const CONTRACT_VERSION: &'static str = "crates.io:maintenance-scheduler:v1.0.0";

/// Name the contract registers itself under.
pub const CONTRACT_NAME: &'static str = "maintenance_scheduler";

/// One-time initialization payload: the creator identity.
#[derive(Debug)]
pub struct InstantiateMsg {
    pub admin: String,
}

/// The mutating commands.
#[derive(Debug)]
pub enum ExecuteMsg {
    AddEquipment { id: String, name: String, description: String, usage_threshold: u64 },
    LogMaintenance { equipment_id: String, maintenance_type: String, notes: String },
    UpdateThreshold { equipment_id: String, new_threshold: u64 },
    RemoveEquipment { id: String },
    ClearInventory {},
    AddUser { email: String, role: UserRole },
    RemoveWorker { email: String },
    ResetMaintenance { equipment_id: String },
    ListEquipment {},
}

/// The read-only queries.
#[derive(Debug)]
pub enum QueryMsg {
    GetEquipmentInfo { equipment_id: String },
    GetMaintenanceHistory { equipment_id: String },
    ListEquipment {},
    GetUserDetails { email: String },
}

/// Why an invocation was refused. The host discards every pending write of
/// a refused invocation, so a failed command changes nothing.
///
/// Malformed input is rejected at the host's decoding boundary and storage
/// faults abort the invocation in the host, so neither appears here.
#[derive(Clone, Copy, Debug, PartialEq, Eq, Structural)]
pub enum ContractError {
    /// The caller has no user record, or its role does not meet the
    /// command's requirement.
    Unauthorized,
    /// A point lookup named a key that is not in the store.
    NotFound,
}

/// One key/value pair of an emitted event.
#[derive(Debug)]
pub struct Attribute {
    pub key: String,
    pub value: String,
}

impl View for Attribute {
    type V = (Seq<char>, Seq<char>);

    open spec fn view(&self) -> (Seq<char>, Seq<char>) {
        (self.key@, self.value@)
    }
}

/// The ghost image of a sequence of attributes.
pub open spec fn attr_views(s: Seq<Attribute>) -> Seq<(Seq<char>, Seq<char>)> {
    s.map_values(|a: Attribute| a@)
}

/// A named description of the state change a command performed.
#[derive(Debug)]
pub struct Event {
    pub name: String,
    pub attributes: Vec<Attribute>,
}

/// Ghost image of [`Event`].
#[verifier::ext_equal]
pub struct EventView {
    pub name: Seq<char>,
    pub attributes: Seq<(Seq<char>, Seq<char>)>,
}

impl View for Event {
    type V = EventView;

    open spec fn view(&self) -> EventView {
        EventView { name: self.name@, attributes: attr_views(self.attributes@) }
    }
}

/// What a successful command hands back to the host: at most one event,
/// and, for the listing command, a data payload.
#[derive(Debug)]
pub struct Response {
    pub event: Option<Event>,
    pub data: Option<EquipmentListResponse>,
}

/// Ghost image of [`Response`].
#[verifier::ext_equal]
pub struct ResponseView {
    pub event: Option<EventView>,
    pub data: Option<Seq<EquipmentView>>,
}

impl View for Response {
    type V = ResponseView;

    open spec fn view(&self) -> ResponseView {
        ResponseView {
            event: match self.event {
                Some(ev) => Some(ev@),
                None => None,
            },
            data: match self.data {
                Some(d) => Some(equipment_views(d.equipment@)),
                None => None,
            },
        }
    }
}

impl ResponseView {
    /// A response that carries nothing.
    pub open spec fn empty() -> ResponseView {
        ResponseView { event: None, data: None }
    }

    /// A response that carries one event and no data.
    pub open spec fn with_event(name: Seq<char>, attrs: Seq<(Seq<char>, Seq<char>)>) -> ResponseView {
        ResponseView { event: Some(EventView { name, attributes: attrs }), data: None }
    }
}

/// The character of one decimal digit.
pub open spec fn digit_char(d: nat) -> char {
    ((d + 0x30) as u8) as char
}

/// The decimal digits of `n`, most significant first, with no sign and no
/// leading zeros.
pub open spec fn dec_digits(n: nat) -> Seq<char>
    decreases n,
{
    if n < 10 {
        seq![digit_char(n)]
    } else {
        dec_digits(n / 10).push(digit_char(n % 10))
    }
}

/// Relies on `u64`'s `Display` implementation: formatting an unsigned
/// integer yields exactly its decimal digits, most significant first.
#[verifier::external_body]
pub(crate) fn u64_to_decimal(n: u64) -> (r: String)
    ensures
        r@ == dec_digits(n as nat),
{
    format!("{}", n)
}

/// Builds an event with no attributes.
pub fn event0(name: &str) -> (r: Event)
    ensures
        r@ == (EventView { name: name@, attributes: Seq::empty() }),
{
    let r = Event { name: name.to_owned(), attributes: Vec::new() };
    proof {
        assert(attr_views(r.attributes@) =~= Seq::<(Seq<char>, Seq<char>)>::empty());
        assert(r@ =~= (EventView { name: name@, attributes: Seq::empty() }));
    }
    r
}

/// Builds an event with one attribute.
pub fn event1(name: &str, key: &str, value: String) -> (r: Event)
    ensures
        r@ == (EventView { name: name@, attributes: seq![(key@, value@)] }),
{
    let mut attributes: Vec<Attribute> = Vec::new();
    attributes.push(Attribute { key: key.to_owned(), value });
    let r = Event { name: name.to_owned(), attributes };
    proof {
        assert(attr_views(r.attributes@) =~= seq![(key@, value@)]);
        assert(r@ =~= (EventView { name: name@, attributes: seq![(key@, value@)] }));
    }
    r
}

/// Builds an event with two attributes.
pub fn event2(name: &str, key1: &str, value1: String, key2: &str, value2: String) -> (r: Event)
    ensures
        r@ == (EventView { name: name@, attributes: seq![(key1@, value1@), (key2@, value2@)] }),
{
    let mut attributes: Vec<Attribute> = Vec::new();
    attributes.push(Attribute { key: key1.to_owned(), value: value1 });
    attributes.push(Attribute { key: key2.to_owned(), value: value2 });
    let r = Event { name: name.to_owned(), attributes };
    proof {
        assert(attr_views(r.attributes@) =~= seq![(key1@, value1@), (key2@, value2@)]);
        assert(r@ =~= (EventView {
            name: name@,
            attributes: seq![(key1@, value1@), (key2@, value2@)],
        }));
    }
    r
}

/// Payload of the listing command and query: every equipment record, in
/// ascending key order.
#[derive(Debug)]
pub struct EquipmentListResponse {
    pub equipment: Vec<Equipment>,
}

impl View for EquipmentListResponse {
    type V = Seq<EquipmentView>;

    open spec fn view(&self) -> Seq<EquipmentView> {
        equipment_views(self.equipment@)
    }
}

/// Payload of the equipment point lookup.
#[derive(Debug)]
pub struct EquipmentInfoResponse {
    pub equipment: Option<Equipment>,
}

impl View for EquipmentInfoResponse {
    type V = Option<EquipmentView>;

    open spec fn view(&self) -> Option<EquipmentView> {
        match self.equipment {
            Some(e) => Some(e@),
            None => None,
        }
    }
}

/// Payload of the maintenance-history query.
#[derive(Debug)]
pub struct MaintenanceHistoryResponse {
    pub logs: Vec<MaintenanceLog>,
}

impl View for MaintenanceHistoryResponse {
    type V = Seq<MaintenanceLogView>;

    open spec fn view(&self) -> Seq<MaintenanceLogView> {
        log_views(self.logs@)
    }
}

/// Payload of the user point lookup.
#[derive(Debug)]
pub struct UserDetailsResponse {
    pub user: Option<User>,
}

impl View for UserDetailsResponse {
    type V = Option<UserView>;

    open spec fn view(&self) -> Option<UserView> {
        match self.user {
            Some(u) => Some(u@),
            None => None,
        }
    }
}

/// The invocation context the host resolves before calling a handler: the
/// authenticated caller and the block time of the invocation.
#[derive(Debug)]
pub struct Env {
    pub sender: String,
    pub block_time: u64,
}

} // verus!
