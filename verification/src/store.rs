//! The verified key-value state of the contract.
//!
//! [`State`] realizes the storage port the handlers run against: point
//! get/put/remove per namespace, full clearing of the inventory namespaces,
//! and ascending key-order listing of the equipment namespace. Its view is a
//! [`StateView`]: one `Map` per namespace, plus the contract-info singleton.
//! The host persists a `State` between invocations and hands it back whole.

use vstd::prelude::*;

verus! {

use vstd::pervasive::VecAdditionalExecFns;

use crate::kv::kv_distinct;
use crate::kv::kv_has_key;
use crate::kv::kv_map;
use crate::kv::lemma_kv_map_dom;
use crate::kv::lemma_kv_map_index;
use crate::kv::lemma_kv_map_insert;
use crate::kv::lemma_kv_map_remove;
use crate::kv::lemma_kv_map_update;
use crate::order::KeyOrder;
use crate::order::key_bytes;
use crate::order::lemma_lex_lt_irreflexive;
use crate::order::lemma_lex_lt_transitive;
use crate::order::lex_lt;
use crate::order::str_cmp;
use crate::state::ContractInfo;
use crate::state::ContractInfoView;
use crate::state::Equipment;
use crate::state::EquipmentView;
use crate::state::equipment_views;
use crate::state::MaintenanceLog;
use crate::state::MaintenanceLogView;
use crate::state::User;
use crate::state::UserView;

/// The append-only maintenance list of one piece of equipment.
pub struct LogBook {
    pub equipment_id: String,
    pub entries: Vec<MaintenanceLog>,
}

/// The ghost images of a sequence of log entries.
pub open spec fn log_views(s: Seq<MaintenanceLog>) -> Seq<MaintenanceLogView> {
    s.map_values(|l: MaintenanceLog| l@)
}

impl View for LogBook {
    type V = (Seq<char>, Seq<MaintenanceLogView>);

    open spec fn view(&self) -> (Seq<char>, Seq<MaintenanceLogView>) {
        (self.equipment_id@, log_views(self.entries@))
    }
}

/// One principal, under the identity the store keys it by.
pub struct UserEntry {
    pub key: String,
    pub user: User,
}

impl View for UserEntry {
    type V = (Seq<char>, UserView);

    open spec fn view(&self) -> (Seq<char>, UserView) {
        (self.key@, self.user@)
    }
}

/// The equipment namespace as key/value pairs.
pub open spec fn equip_entries(s: Seq<Equipment>) -> Seq<(Seq<char>, EquipmentView)> {
    s.map_values(|e: Equipment| (e.id@, e@))
}

/// The log namespace as key/value pairs.
pub open spec fn book_entries(s: Seq<LogBook>) -> Seq<(Seq<char>, Seq<MaintenanceLogView>)> {
    s.map_values(|b: LogBook| b@)
}

/// The user namespace as key/value pairs.
pub open spec fn user_entries(s: Seq<UserEntry>) -> Seq<(Seq<char>, UserView)> {
    s.map_values(|u: UserEntry| u@)
}

/// Equipment records stand in strictly ascending key-byte order.
pub open spec fn equip_sorted(s: Seq<Equipment>) -> bool {
    forall|i: int, j: int|
        0 <= i < j < s.len() ==> lex_lt(
            key_bytes((#[trigger] s[i]).id@),
            key_bytes((#[trigger] s[j]).id@),
        )
}

/// What a correct equipment listing looks like against a state: every
/// returned record is in the store, every stored record is returned, and
/// the records stand in strictly ascending key-byte order.
pub open spec fn lists_equipment(s: StateView, es: Seq<EquipmentView>) -> bool {
    &&& forall|i: int|
        0 <= i < es.len() ==> s.equipment.contains_key((#[trigger] es[i]).id) && s.equipment[es[i].id]
            == es[i]
    &&& forall|k: Seq<char>|
        #[trigger] s.equipment.contains_key(k) ==> exists|i: int|
            0 <= i < es.len() && (#[trigger] es[i]).id == k
    &&& forall|i: int, j: int|
        0 <= i < j < es.len() ==> lex_lt(key_bytes((#[trigger] es[i]).id), key_bytes((#[trigger] es[j]).id))
}

/// Ghost image of the whole store.
#[verifier::ext_equal]
pub struct StateView {
    pub contract_info: Option<ContractInfoView>,
    pub equipment: Map<Seq<char>, EquipmentView>,
    pub logs: Map<Seq<char>, Seq<MaintenanceLogView>>,
    pub users: Map<Seq<char>, UserView>,
}

impl StateView {
    /// The maintenance list of `k`, empty when the key is absent: an unknown
    /// key reads as an empty collection.
    pub open spec fn logs_or_empty(self, k: Seq<char>) -> Seq<MaintenanceLogView> {
        if self.logs.contains_key(k) {
            self.logs[k]
        } else {
            Seq::empty()
        }
    }
}

/// The contract's durable state: one vector per namespace.
pub struct State {
    contract_info: Option<ContractInfo>,
    equipment: Vec<Equipment>,
    logs: Vec<LogBook>,
    users: Vec<UserEntry>,
}

impl View for State {
    type V = StateView;

    closed spec fn view(&self) -> StateView {
        StateView {
            contract_info: match self.contract_info {
                Some(ci) => Some(ci@),
                None => None,
            },
            equipment: kv_map(equip_entries(self.equipment@)),
            logs: kv_map(book_entries(self.logs@)),
            users: kv_map(user_entries(self.users@)),
        }
    }
}

/// Strictly ascending keys are in particular distinct.
proof fn lemma_sorted_distinct(s: Seq<Equipment>)
    requires
        equip_sorted(s),
    ensures
        kv_distinct(equip_entries(s)),
{
    let es = equip_entries(s);
    assert forall|i: int, j: int| 0 <= i < j < es.len() implies (#[trigger] es[i]).0 != (
    #[trigger] es[j]).0 by {
        assert(es[i].0 == s[i].id@);
        assert(es[j].0 == s[j].id@);
        if s[i].id@ == s[j].id@ {
            lemma_lex_lt_irreflexive(key_bytes(s[i].id@));
        }
    }
}

impl State {
    /// The store is well formed: equipment stands in ascending key order and
    /// every namespace keys its records uniquely.
    pub closed spec fn wf(self) -> bool {
        &&& equip_sorted(self.equipment@)
        &&& kv_distinct(book_entries(self.logs@))
        &&& kv_distinct(user_entries(self.users@))
    }

    /// An empty store, as the host starts from before initialization.
    pub fn new() -> (s: State)
        ensures
            s.wf(),
            s@.contract_info is None,
            s@.equipment == Map::<Seq<char>, EquipmentView>::empty(),
            s@.logs == Map::<Seq<char>, Seq<MaintenanceLogView>>::empty(),
            s@.users == Map::<Seq<char>, UserView>::empty(),
    {
        let s = State {
            contract_info: None,
            equipment: Vec::new(),
            logs: Vec::new(),
            users: Vec::new(),
        };
        proof {
            assert(equip_entries(s.equipment@).len() == 0);
            assert(book_entries(s.logs@).len() == 0);
            assert(user_entries(s.users@).len() == 0);
        }
        s
    }

    /// Records the contract-info singleton.
    pub fn set_contract_info(&mut self, info: ContractInfo)
        ensures
            final (self).wf() == old(self).wf(),
            final (self)@ == (StateView { contract_info: Some(info@), ..old(self)@ }),
    {
        self.contract_info = Some(info);
    }

    /// Reads the contract-info singleton.
    pub fn get_contract_info(&self) -> (r: Option<&ContractInfo>)
        ensures
            match r {
                Some(ci) => self@.contract_info == Some(ci@),
                None => self@.contract_info is None,
            },
    {
        match &self.contract_info {
            Some(ci) => Some(ci),
            None => None,
        }
    }

    /// Where `id` stands, or would stand, in the equipment namespace.
    fn find_equipment_slot(&self, id: &str) -> (r: (usize, bool))
        requires
            self.wf(),
        ensures
            r.0 <= self.equipment@.len(),
            r.1 ==> r.0 < self.equipment@.len() && self.equipment@[r.0 as int].id@ == id@,
            !r.1 ==> forall|j: int|
                0 <= j < self.equipment@.len() ==> (#[trigger] self.equipment@[j]).id@ != id@,
            forall|j: int|
                0 <= j < r.0 ==> lex_lt(key_bytes((#[trigger] self.equipment@[j]).id@), key_bytes(id@)),
            !r.1 && r.0 < self.equipment@.len() ==> lex_lt(
                key_bytes(id@),
                key_bytes(self.equipment@[r.0 as int].id@),
            ),
    {
        let v = &self.equipment;
        let n = v.len();
        let mut i: usize = 0;
        while i < n
            invariant
                n == v@.len(),
                i <= n,
                self.wf(),
                v@ == self.equipment@,
                forall|j: int| 0 <= j < i ==> lex_lt(key_bytes((#[trigger] v@[j]).id@), key_bytes(id@)),
            decreases n - i,
        {
            match str_cmp(v[i].id.as_str(), id) {
                KeyOrder::Less => {
                    i = i + 1;
                },
                KeyOrder::Equal => {
                    return (i, true);
                },
                KeyOrder::Greater => {
                    proof {
                        assert forall|j: int| 0 <= j < v@.len() implies (#[trigger] v@[j]).id@
                            != id@ by {
                            if v@[j].id@ == id@ {
                                if j < i {
                                    lemma_lex_lt_irreflexive(key_bytes(id@));
                                } else if j == i {
                                    lemma_lex_lt_irreflexive(key_bytes(id@));
                                } else {
                                    lemma_lex_lt_transitive(
                                        key_bytes(id@),
                                        key_bytes(v@[i as int].id@),
                                        key_bytes(v@[j].id@),
                                    );
                                    lemma_lex_lt_irreflexive(key_bytes(id@));
                                }
                            }
                        }
                    }
                    return (i, false);
                },
            }
        }
        proof {
            assert forall|j: int| 0 <= j < v@.len() implies (#[trigger] v@[j]).id@ != id@ by {
                if v@[j].id@ == id@ {
                    lemma_lex_lt_irreflexive(key_bytes(id@));
                }
            }
        }
        (i, false)
    }

    /// Fetches the equipment record keyed `id`, if any: a point lookup.
    pub fn get_equipment(&self, id: &str) -> (r: Option<&Equipment>)
        requires
            self.wf(),
        ensures
            match r {
                Some(e) => self@.equipment.contains_key(id@) && self@.equipment[id@] == e@ && e.id@
                    == id@,
                None => !self@.equipment.contains_key(id@),
            },
    {
        let (i, found) = self.find_equipment_slot(id);
        proof {
            lemma_sorted_distinct(self.equipment@);
            lemma_kv_map_dom(equip_entries(self.equipment@));
        }
        if found {
            proof {
                lemma_kv_map_index(equip_entries(self.equipment@), i as int);
                assert(equip_entries(self.equipment@)[i as int] == (id@, self.equipment@[i as int]@));
            }
            Some(&self.equipment[i])
        } else {
            proof {
                assert(!kv_has_key(equip_entries(self.equipment@), id@)) by {
                    if kv_has_key(equip_entries(self.equipment@), id@) {
                        let j = choose|j: int|
                            0 <= j < equip_entries(self.equipment@).len() && (#[trigger] equip_entries(
                                self.equipment@,
                            )[j]).0 == id@;
                        assert(self.equipment@[j].id@ == id@);
                    }
                }
            }
            None
        }
    }

    /// Writes `e` under its id: creates the record or overwrites it in
    /// place, keeping ascending key order.
    pub fn put_equipment(&mut self, e: Equipment)
        requires
            old(self).wf(),
        ensures
            final (self).wf(),
            final (self)@ == (StateView {
                equipment: old(self)@.equipment.insert(e.id@, e@),
                ..old(self)@
            }),
    {
        let ghost olds = self.equipment@;
        let ghost k = e.id@;
        let (i, found) = self.find_equipment_slot(e.id.as_str());
        proof {
            lemma_sorted_distinct(olds);
        }
        if found {
            self.equipment.set(i, e);
            proof {
                assert(self.equipment@ == olds.update(i as int, e));
                assert(equip_entries(self.equipment@) =~= equip_entries(olds).update(
                    i as int,
                    (olds[i as int].id@, e@),
                ));
                assert((olds[i as int].id@, e@) == (k, e@));
                lemma_kv_map_update(equip_entries(olds), i as int, e@);
                assert(equip_sorted(self.equipment@)) by {
                    assert forall|x: int, y: int|
                        0 <= x < y < self.equipment@.len() implies lex_lt(
                        key_bytes((#[trigger] self.equipment@[x]).id@),
                        key_bytes((#[trigger] self.equipment@[y]).id@),
                    ) by {
                        assert(self.equipment@[x].id@ == olds[x].id@);
                        assert(self.equipment@[y].id@ == olds[y].id@);
                    }
                }
                assert(final (self)@ =~= (StateView {
                    equipment: old(self)@.equipment.insert(k, e@),
                    ..old(self)@
                }));
            }
        } else {
            proof {
                assert(!kv_has_key(equip_entries(olds), k)) by {
                    if kv_has_key(equip_entries(olds), k) {
                        let j = choose|j: int|
                            0 <= j < equip_entries(olds).len() && (#[trigger] equip_entries(olds)[j]).0
                                == k;
                        assert(olds[j].id@ == k);
                    }
                }
                lemma_kv_map_insert(equip_entries(olds), i as int, k, e@);
            }
            self.equipment.insert(i, e);
            proof {
                let w = self.equipment@;
                assert(w == olds.insert(i as int, e));
                olds.insert_ensures(i as int, e);
                assert(equip_entries(w) =~= equip_entries(olds).insert(i as int, (k, e@)));
                assert(equip_sorted(w)) by {
                    assert forall|x: int, y: int|
                        0 <= x < y < w.len() implies lex_lt(
                        key_bytes((#[trigger] w[x]).id@),
                        key_bytes((#[trigger] w[y]).id@),
                    ) by {
                        if y > i {
                            // w[y] is olds[y - 1], which the new key precedes.
                            assert(w[y] == olds[y - 1]);
                            if i < y - 1 {
                                lemma_lex_lt_transitive(
                                    key_bytes(k),
                                    key_bytes(olds[i as int].id@),
                                    key_bytes(olds[y - 1].id@),
                                );
                            }
                            assert(lex_lt(key_bytes(k), key_bytes(olds[y - 1].id@)));
                            if x < i {
                                assert(w[x] == olds[x]);
                                lemma_lex_lt_transitive(
                                    key_bytes(olds[x].id@),
                                    key_bytes(k),
                                    key_bytes(olds[y - 1].id@),
                                );
                            } else if x > i {
                                assert(w[x] == olds[x - 1]);
                            }
                        } else if y == i {
                            assert(w[x] == olds[x]);
                        } else {
                            assert(w[x] == olds[x]);
                            assert(w[y] == olds[y]);
                        }
                    }
                }
                assert(final (self)@ =~= (StateView {
                    equipment: old(self)@.equipment.insert(k, e@),
                    ..old(self)@
                }));
            }
        }
    }

    /// Deletes the equipment record keyed `id`; removing an absent key is
    /// not an error and changes nothing.
    pub fn remove_equipment(&mut self, id: &str)
        requires
            old(self).wf(),
        ensures
            final (self).wf(),
            final (self)@ == (StateView {
                equipment: old(self)@.equipment.remove(id@),
                ..old(self)@
            }),
    {
        let ghost olds = self.equipment@;
        let (i, found) = self.find_equipment_slot(id);
        proof {
            lemma_sorted_distinct(olds);
            lemma_kv_map_dom(equip_entries(olds));
        }
        if found {
            proof {
                lemma_kv_map_remove(equip_entries(olds), i as int);
            }
            self.equipment.remove(i);
            proof {
                assert(self.equipment@ == olds.remove(i as int));
                assert(equip_entries(self.equipment@) =~= equip_entries(olds).remove(i as int));
                assert(equip_sorted(self.equipment@)) by {
                    assert forall|x: int, y: int|
                        0 <= x < y < self.equipment@.len() implies lex_lt(
                        key_bytes((#[trigger] self.equipment@[x]).id@),
                        key_bytes((#[trigger] self.equipment@[y]).id@),
                    ) by {
                        assert(self.equipment@[x] == if x < i as int {
                            olds[x]
                        } else {
                            olds[x + 1]
                        });
                        assert(self.equipment@[y] == if y < i as int {
                            olds[y]
                        } else {
                            olds[y + 1]
                        });
                    }
                }
                assert(final (self)@ =~= (StateView {
                    equipment: old(self)@.equipment.remove(id@),
                    ..old(self)@
                }));
            }
        } else {
            proof {
                assert(!kv_has_key(equip_entries(olds), id@)) by {
                    if kv_has_key(equip_entries(olds), id@) {
                        let j = choose|j: int|
                            0 <= j < equip_entries(olds).len() && (#[trigger] equip_entries(olds)[j]).0
                                == id@;
                        assert(olds[j].id@ == id@);
                    }
                }
                assert(old(self)@.equipment.remove(id@) =~= old(self)@.equipment);
                assert(final (self)@ =~= (StateView {
                    equipment: old(self)@.equipment.remove(id@),
                    ..old(self)@
                }));
            }
        }
    }

    /// Empties the equipment and maintenance-log namespaces in one sweep.
    pub fn clear_inventory_namespaces(&mut self)
        requires
            old(self).wf(),
        ensures
            final (self).wf(),
            final (self)@ == (StateView {
                equipment: Map::<Seq<char>, EquipmentView>::empty(),
                logs: Map::<Seq<char>, Seq<MaintenanceLogView>>::empty(),
                ..old(self)@
            }),
    {
        self.equipment.clear();
        self.logs.clear();
        proof {
            assert(equip_entries(self.equipment@).len() == 0);
            assert(book_entries(self.logs@).len() == 0);
            assert(final (self)@ =~= (StateView {
                equipment: Map::<Seq<char>, EquipmentView>::empty(),
                logs: Map::<Seq<char>, Seq<MaintenanceLogView>>::empty(),
                ..old(self)@
            }));
        }
    }

    /// Where `id`'s log book stands in the log namespace.
    fn find_log_slot(&self, id: &str) -> (r: (usize, bool))
        ensures
            r.0 <= self.logs@.len(),
            r.1 ==> r.0 < self.logs@.len() && self.logs@[r.0 as int].equipment_id@ == id@,
            !r.1 ==> forall|j: int|
                0 <= j < self.logs@.len() ==> (#[trigger] self.logs@[j]).equipment_id@ != id@,
    {
        let n = self.logs.len();
        let mut i: usize = 0;
        while i < n
            invariant
                n == self.logs@.len(),
                i <= n,
                forall|j: int| 0 <= j < i ==> (#[trigger] self.logs@[j]).equipment_id@ != id@,
            decreases n - i,
        {
            if matches!(str_cmp(self.logs[i].equipment_id.as_str(), id), KeyOrder::Equal) {
                return (i, true);
            }
            i = i + 1;
        }
        (i, false)
    }

    /// Fetches the maintenance list of `id`, if the key is present.
    pub fn get_logs(&self, id: &str) -> (r: Option<&Vec<MaintenanceLog>>)
        requires
            self.wf(),
        ensures
            match r {
                Some(es) => self@.logs.contains_key(id@) && self@.logs[id@] == log_views(es@),
                None => !self@.logs.contains_key(id@),
            },
    {
        let (i, found) = self.find_log_slot(id);
        proof {
            lemma_kv_map_dom(book_entries(self.logs@));
        }
        if found {
            proof {
                lemma_kv_map_index(book_entries(self.logs@), i as int);
                assert(book_entries(self.logs@)[i as int] == self.logs@[i as int]@);
            }
            Some(&self.logs[i].entries)
        } else {
            proof {
                assert(!kv_has_key(book_entries(self.logs@), id@)) by {
                    if kv_has_key(book_entries(self.logs@), id@) {
                        let j = choose|j: int|
                            0 <= j < book_entries(self.logs@).len() && (#[trigger] book_entries(
                                self.logs@,
                            )[j]).0 == id@;
                        assert(self.logs@[j].equipment_id@ == id@);
                    }
                }
            }
            None
        }
    }

    /// Appends one entry to the maintenance list of its equipment id,
    /// creating the list when the key is new. Lists are append-only: no
    /// operation edits an entry in place.
    pub fn append_log(&mut self, entry: MaintenanceLog)
        requires
            old(self).wf(),
        ensures
            final (self).wf(),
            final (self)@ == (StateView {
                logs: old(self)@.logs.insert(
                    entry.equipment_id@,
                    old(self)@.logs_or_empty(entry.equipment_id@).push(entry@),
                ),
                ..old(self)@
            }),
    {
        let ghost olds = self.logs@;
        let ghost k = entry.equipment_id@;
        let (i, found) = self.find_log_slot(entry.equipment_id.as_str());
        proof {
            lemma_kv_map_dom(book_entries(olds));
        }
        if found {
            proof {
                lemma_kv_map_index(book_entries(olds), i as int);
                assert(book_entries(olds)[i as int] == olds[i as int]@);
            }
            let mut book = self.logs.remove(i);
            book.entries.push(entry);
            self.logs.insert(i, book);
            proof {
                let w = self.logs@;
                assert(w =~= olds.update(i as int, w[i as int]));
                assert(w[i as int]@ == (k, old(self)@.logs[k].push(entry@)));
                assert(book_entries(w) =~= book_entries(olds).update(
                    i as int,
                    (k, old(self)@.logs[k].push(entry@)),
                ));
                assert((k, old(self)@.logs[k].push(entry@)) == (
                    book_entries(olds)[i as int].0,
                    old(self)@.logs[k].push(entry@),
                ));
                lemma_kv_map_update(book_entries(olds), i as int, old(self)@.logs[k].push(entry@));
                assert(kv_distinct(book_entries(w))) by {
                    assert forall|x: int, y: int|
                        0 <= x < y < book_entries(w).len() implies (#[trigger] book_entries(w)[x]).0
                        != (#[trigger] book_entries(w)[y]).0 by {
                        assert(book_entries(w)[x].0 == book_entries(olds)[x].0);
                        assert(book_entries(w)[y].0 == book_entries(olds)[y].0);
                    }
                }
                assert(final (self)@ =~= (StateView {
                    logs: old(self)@.logs.insert(k, old(self)@.logs_or_empty(k).push(entry@)),
                    ..old(self)@
                }));
            }
        } else {
            proof {
                assert(!kv_has_key(book_entries(olds), k)) by {
                    if kv_has_key(book_entries(olds), k) {
                        let j = choose|j: int|
                            0 <= j < book_entries(olds).len() && (#[trigger] book_entries(olds)[j]).0
                                == k;
                        assert(olds[j].equipment_id@ == k);
                    }
                }
                lemma_kv_map_insert(book_entries(olds), olds.len() as int, k, seq![entry@]);
            }
            let mut entries: Vec<MaintenanceLog> = Vec::new();
            entries.push(entry);
            let book = LogBook { equipment_id: entries[0].equipment_id.clone(), entries };
            self.logs.push(book);
            proof {
                let w = self.logs@;
                assert(w[olds.len() as int]@ == (k, seq![entry@])) by {
                    assert(log_views(w[olds.len() as int].entries@) =~= seq![entry@]);
                }
                assert(w =~= olds.insert(olds.len() as int, w[olds.len() as int]));
                olds.insert_ensures(olds.len() as int, w[olds.len() as int]);
                assert(book_entries(w) =~= book_entries(olds).insert(
                    olds.len() as int,
                    (k, seq![entry@]),
                ));
                assert(kv_distinct(book_entries(w))) by {
                    assert forall|x: int, y: int|
                        0 <= x < y < book_entries(w).len() implies (#[trigger] book_entries(w)[x]).0
                        != (#[trigger] book_entries(w)[y]).0 by {
                        if y < olds.len() {
                            assert(book_entries(w)[x].0 == book_entries(olds)[x].0);
                            assert(book_entries(w)[y].0 == book_entries(olds)[y].0);
                        } else {
                            assert(book_entries(w)[x].0 == book_entries(olds)[x].0);
                            assert(book_entries(w)[y].0 == k);
                            assert(olds[x].equipment_id@ != k);
                        }
                    }
                }
                assert(old(self)@.logs_or_empty(k) =~= Seq::<MaintenanceLogView>::empty());
                assert(old(self)@.logs_or_empty(k).push(entry@) =~= seq![entry@]);
                assert(final (self)@ =~= (StateView {
                    logs: old(self)@.logs.insert(k, old(self)@.logs_or_empty(k).push(entry@)),
                    ..old(self)@
                }));
            }
        }
    }

    /// Deletes the maintenance list keyed `id`; removing an absent key is
    /// not an error and changes nothing.
    pub fn remove_logs(&mut self, id: &str)
        requires
            old(self).wf(),
        ensures
            final (self).wf(),
            final (self)@ == (StateView { logs: old(self)@.logs.remove(id@), ..old(self)@ }),
    {
        let ghost olds = self.logs@;
        let (i, found) = self.find_log_slot(id);
        proof {
            lemma_kv_map_dom(book_entries(olds));
        }
        if found {
            proof {
                lemma_kv_map_remove(book_entries(olds), i as int);
            }
            self.logs.remove(i);
            proof {
                let w = self.logs@;
                assert(book_entries(w) =~= book_entries(olds).remove(i as int));
                olds.remove_ensures(i as int);
                assert(kv_distinct(book_entries(w))) by {
                    assert forall|x: int, y: int|
                        0 <= x < y < book_entries(w).len() implies (#[trigger] book_entries(w)[x]).0
                        != (#[trigger] book_entries(w)[y]).0 by {
                        assert(w[x] == if x < i as int {
                            olds[x]
                        } else {
                            olds[x + 1]
                        });
                        assert(w[y] == if y < i as int {
                            olds[y]
                        } else {
                            olds[y + 1]
                        });
                    }
                }
                assert(final (self)@ =~= (StateView {
                    logs: old(self)@.logs.remove(id@),
                    ..old(self)@
                }));
            }
        } else {
            proof {
                assert(!kv_has_key(book_entries(olds), id@)) by {
                    if kv_has_key(book_entries(olds), id@) {
                        let j = choose|j: int|
                            0 <= j < book_entries(olds).len() && (#[trigger] book_entries(olds)[j]).0
                                == id@;
                        assert(olds[j].equipment_id@ == id@);
                    }
                }
                assert(old(self)@.logs.remove(id@) =~= old(self)@.logs);
                assert(final (self)@ =~= (StateView {
                    logs: old(self)@.logs.remove(id@),
                    ..old(self)@
                }));
            }
        }
    }

    /// Where `key`'s user record stands in the user namespace.
    fn find_user_slot(&self, key: &str) -> (r: (usize, bool))
        ensures
            r.0 <= self.users@.len(),
            r.1 ==> r.0 < self.users@.len() && self.users@[r.0 as int].key@ == key@,
            !r.1 ==> forall|j: int|
                0 <= j < self.users@.len() ==> (#[trigger] self.users@[j]).key@ != key@,
    {
        let n = self.users.len();
        let mut i: usize = 0;
        while i < n
            invariant
                n == self.users@.len(),
                i <= n,
                forall|j: int| 0 <= j < i ==> (#[trigger] self.users@[j]).key@ != key@,
            decreases n - i,
        {
            if matches!(str_cmp(self.users[i].key.as_str(), key), KeyOrder::Equal) {
                return (i, true);
            }
            i = i + 1;
        }
        (i, false)
    }

    /// Fetches the user record keyed `key`, if any: a point lookup.
    pub fn get_user(&self, key: &str) -> (r: Option<&User>)
        requires
            self.wf(),
        ensures
            match r {
                Some(u) => self@.users.contains_key(key@) && self@.users[key@] == u@,
                None => !self@.users.contains_key(key@),
            },
    {
        let (i, found) = self.find_user_slot(key);
        proof {
            lemma_kv_map_dom(user_entries(self.users@));
        }
        if found {
            proof {
                lemma_kv_map_index(user_entries(self.users@), i as int);
                assert(user_entries(self.users@)[i as int] == self.users@[i as int]@);
            }
            Some(&self.users[i].user)
        } else {
            proof {
                assert(!kv_has_key(user_entries(self.users@), key@)) by {
                    if kv_has_key(user_entries(self.users@), key@) {
                        let j = choose|j: int|
                            0 <= j < user_entries(self.users@).len() && (#[trigger] user_entries(
                                self.users@,
                            )[j]).0 == key@;
                        assert(self.users@[j].key@ == key@);
                    }
                }
            }
            None
        }
    }

    /// Writes `user` under `key`: creates the record or overwrites it.
    pub fn put_user(&mut self, key: String, user: User)
        requires
            old(self).wf(),
        ensures
            final (self).wf(),
            final (self)@ == (StateView { users: old(self)@.users.insert(key@, user@), ..old(self)@ }),
    {
        let ghost olds = self.users@;
        let ghost k = key@;
        let (i, found) = self.find_user_slot(key.as_str());
        if found {
            self.users.set(i, UserEntry { key, user });
            proof {
                let w = self.users@;
                assert(w == olds.update(i as int, w[i as int]));
                assert(w[i as int]@ == (k, user@));
                assert(user_entries(w) =~= user_entries(olds).update(i as int, (k, user@)));
                assert((k, user@) == (user_entries(olds)[i as int].0, user@));
                lemma_kv_map_update(user_entries(olds), i as int, user@);
                assert(kv_distinct(user_entries(w))) by {
                    assert forall|x: int, y: int|
                        0 <= x < y < user_entries(w).len() implies (#[trigger] user_entries(w)[x]).0
                        != (#[trigger] user_entries(w)[y]).0 by {
                        assert(user_entries(w)[x].0 == user_entries(olds)[x].0);
                        assert(user_entries(w)[y].0 == user_entries(olds)[y].0);
                    }
                }
                assert(final (self)@ =~= (StateView {
                    users: old(self)@.users.insert(k, user@),
                    ..old(self)@
                }));
            }
        } else {
            proof {
                assert(!kv_has_key(user_entries(olds), k)) by {
                    if kv_has_key(user_entries(olds), k) {
                        let j = choose|j: int|
                            0 <= j < user_entries(olds).len() && (#[trigger] user_entries(olds)[j]).0
                                == k;
                        assert(olds[j].key@ == k);
                    }
                }
                lemma_kv_map_insert(user_entries(olds), olds.len() as int, k, user@);
            }
            self.users.push(UserEntry { key, user });
            proof {
                let w = self.users@;
                assert(w =~= olds.insert(olds.len() as int, w[olds.len() as int]));
                olds.insert_ensures(olds.len() as int, w[olds.len() as int]);
                assert(user_entries(w) =~= user_entries(olds).insert(olds.len() as int, (k, user@)));
                assert(kv_distinct(user_entries(w))) by {
                    assert forall|x: int, y: int|
                        0 <= x < y < user_entries(w).len() implies (#[trigger] user_entries(w)[x]).0
                        != (#[trigger] user_entries(w)[y]).0 by {
                        if y < olds.len() {
                            assert(user_entries(w)[x].0 == user_entries(olds)[x].0);
                            assert(user_entries(w)[y].0 == user_entries(olds)[y].0);
                        } else {
                            assert(user_entries(w)[x].0 == user_entries(olds)[x].0);
                            assert(user_entries(w)[y].0 == k);
                            assert(olds[x].key@ != k);
                        }
                    }
                }
                assert(final (self)@ =~= (StateView {
                    users: old(self)@.users.insert(k, user@),
                    ..old(self)@
                }));
            }
        }
    }

    /// Deletes the user record keyed `key`; removing an absent key is not
    /// an error and changes nothing.
    pub fn remove_user(&mut self, key: &str)
        requires
            old(self).wf(),
        ensures
            final (self).wf(),
            final (self)@ == (StateView { users: old(self)@.users.remove(key@), ..old(self)@ }),
    {
        let ghost olds = self.users@;
        let (i, found) = self.find_user_slot(key);
        proof {
            lemma_kv_map_dom(user_entries(olds));
        }
        if found {
            proof {
                lemma_kv_map_remove(user_entries(olds), i as int);
            }
            self.users.remove(i);
            proof {
                let w = self.users@;
                assert(user_entries(w) =~= user_entries(olds).remove(i as int));
                olds.remove_ensures(i as int);
                assert(kv_distinct(user_entries(w))) by {
                    assert forall|x: int, y: int|
                        0 <= x < y < user_entries(w).len() implies (#[trigger] user_entries(w)[x]).0
                        != (#[trigger] user_entries(w)[y]).0 by {
                        assert(w[x] == if x < i as int {
                            olds[x]
                        } else {
                            olds[x + 1]
                        });
                        assert(w[y] == if y < i as int {
                            olds[y]
                        } else {
                            olds[y + 1]
                        });
                    }
                }
                assert(final (self)@ =~= (StateView {
                    users: old(self)@.users.remove(key@),
                    ..old(self)@
                }));
            }
        } else {
            proof {
                assert(!kv_has_key(user_entries(olds), key@)) by {
                    if kv_has_key(user_entries(olds), key@) {
                        let j = choose|j: int|
                            0 <= j < user_entries(olds).len() && (#[trigger] user_entries(olds)[j]).0
                                == key@;
                        assert(olds[j].key@ == key@);
                    }
                }
                assert(old(self)@.users.remove(key@) =~= old(self)@.users);
                assert(final (self)@ =~= (StateView {
                    users: old(self)@.users.remove(key@),
                    ..old(self)@
                }));
            }
        }
    }

    /// All equipment records, in ascending key-byte order.
    pub fn list_equipment(&self) -> (r: Vec<Equipment>)
        requires
            self.wf(),
        ensures
            lists_equipment(self@, equipment_views(r@)),
    {
        let n = self.equipment.len();
        let mut r: Vec<Equipment> = Vec::new();
        let mut i: usize = 0;
        while i < n
            invariant
                self.wf(),
                n == self.equipment@.len(),
                i <= n,
                r@.len() == i,
                forall|j: int| 0 <= j < i ==> (#[trigger] r@[j])@ == self.equipment@[j]@,
            decreases n - i,
        {
            r.push(self.equipment[i].clone());
            i = i + 1;
        }
        proof {
            let es = equipment_views(r@);
            lemma_sorted_distinct(self.equipment@);
            lemma_kv_map_dom(equip_entries(self.equipment@));
            assert forall|i: int|
                0 <= i < es.len() implies self@.equipment.contains_key((#[trigger] es[i]).id)
                && self@.equipment[es[i].id] == es[i] by {
                lemma_kv_map_index(equip_entries(self.equipment@), i);
                assert(equip_entries(self.equipment@)[i] == (
                    self.equipment@[i].id@,
                    self.equipment@[i]@,
                ));
                assert(es[i] == r@[i]@);
                assert(r@[i]@ == self.equipment@[i]@);
            }
            assert forall|k: Seq<char>| #[trigger]
                self@.equipment.contains_key(k) implies exists|i: int|
                0 <= i < es.len() && (#[trigger] es[i]).id == k by {
                assert(kv_has_key(equip_entries(self.equipment@), k));
                let j = choose|j: int|
                    0 <= j < equip_entries(self.equipment@).len() && (#[trigger] equip_entries(
                        self.equipment@,
                    )[j]).0 == k;
                assert(self.equipment@[j].id@ == k);
                assert(es[j] == r@[j]@);
                assert(es[j].id == k);
            }
            assert forall|i: int, j: int| 0 <= i < j < es.len() implies lex_lt(
                key_bytes((#[trigger] es[i]).id),
                key_bytes((#[trigger] es[j]).id),
            ) by {
                assert(es[i] == r@[i]@ && r@[i]@ == self.equipment@[i]@);
                assert(es[j] == r@[j]@ && r@[j]@ == self.equipment@[j]@);
            }
        }
        r
    }

    /// Range scan of the whole log namespace: every log book, with the
    /// distinct keys and contents the state's view holds.
    pub fn dump_logs(&self) -> (r: Vec<LogBook>)
        requires
            self.wf(),
        ensures
            kv_distinct(book_entries(r@)),
            kv_map(book_entries(r@)) == self@.logs,
    {
        let n = self.logs.len();
        let mut r: Vec<LogBook> = Vec::new();
        let mut i: usize = 0;
        while i < n
            invariant
                n == self.logs@.len(),
                i <= n,
                r@.len() == i,
                forall|j: int| 0 <= j < i ==> (#[trigger] r@[j])@ == self.logs@[j]@,
            decreases n - i,
        {
            let book = &self.logs[i];
            r.push(
                LogBook {
                    equipment_id: book.equipment_id.clone(),
                    entries: State::clone_logs(&book.entries),
                },
            );
            i = i + 1;
        }
        proof {
            assert(book_entries(r@) =~= book_entries(self.logs@));
        }
        r
    }

    /// Range scan of the whole user namespace: every user record under its
    /// key, with the distinct keys the state's view holds.
    pub fn dump_users(&self) -> (r: Vec<UserEntry>)
        requires
            self.wf(),
        ensures
            kv_distinct(user_entries(r@)),
            kv_map(user_entries(r@)) == self@.users,
    {
        let n = self.users.len();
        let mut r: Vec<UserEntry> = Vec::new();
        let mut i: usize = 0;
        while i < n
            invariant
                n == self.users@.len(),
                i <= n,
                r@.len() == i,
                forall|j: int| 0 <= j < i ==> (#[trigger] r@[j])@ == self.users@[j]@,
            decreases n - i,
        {
            let entry = &self.users[i];
            r.push(UserEntry { key: entry.key.clone(), user: entry.user.clone() });
            i = i + 1;
        }
        proof {
            assert(user_entries(r@) =~= user_entries(self.users@));
        }
        r
    }

    /// Copies a maintenance list, record for record.
    pub fn clone_logs(es: &Vec<MaintenanceLog>) -> (r: Vec<MaintenanceLog>)
        ensures
            log_views(r@) == log_views(es@),
    {
        let n = es.len();
        let mut r: Vec<MaintenanceLog> = Vec::new();
        let mut i: usize = 0;
        while i < n
            invariant
                n == es@.len(),
                i <= n,
                r@.len() == i,
                forall|j: int| 0 <= j < i ==> (#[trigger] r@[j])@ == es@[j]@,
            decreases n - i,
        {
            r.push(es[i].clone());
            i = i + 1;
        }
        proof {
            assert(log_views(r@) =~= log_views(es@));
        }
        r
    }
}

} // verus!
