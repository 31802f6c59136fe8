//! Laws the command semantics obey, stated over the spec transitions the
//! handlers' contracts use and proved once for every state and input.

use vstd::prelude::*;

verus! {

use crate::execute::add_equipment_next;
use crate::execute::add_user_next;
use crate::execute::clear_inventory_next;
use crate::execute::log_maintenance_next;
use crate::execute::made_log_entry;
use crate::execute::new_equipment_view;
use crate::execute::remove_equipment_next;
use crate::order::key_bytes;
use crate::order::lemma_lex_lt_irreflexive;
use crate::order::lemma_lex_lt_transitive;
use crate::order::lex_lt;
use crate::state::EquipmentView;
use crate::state::MaintenanceLogView;
use crate::state::UserRole;
use crate::state::UserView;
use crate::store::StateView;
use crate::store::lists_equipment;

/// Adding equipment makes an immediate point lookup of its id return
/// exactly the submitted fields, with the maintenance timer and usage
/// counter zero; nothing else in the state moves.
pub proof fn lemma_added_equipment_is_queryable(
    s: StateView,
    id: Seq<char>,
    name: Seq<char>,
    description: Seq<char>,
    usage_threshold: u64,
)
    ensures
        ({
            let s1 = add_equipment_next(s, id, name, description, usage_threshold);
            &&& s1.equipment.contains_key(id)
            &&& s1.equipment[id] == new_equipment_view(id, name, description, usage_threshold)
            &&& s1.equipment[id].last_maintenance == 0
            &&& s1.equipment[id].total_usage == 0
            &&& s1.logs == s.logs
            &&& s1.users == s.users
            &&& s1.contract_info == s.contract_info
        }),
{
}

/// Removing equipment leaves neither its record nor its maintenance list:
/// a point lookup of the id afterwards is `NotFound` and its history reads
/// empty.
pub proof fn lemma_removed_equipment_is_gone(s: StateView, id: Seq<char>)
    ensures
        !remove_equipment_next(s, id).equipment.contains_key(id),
        !remove_equipment_next(s, id).logs.contains_key(id),
        remove_equipment_next(s, id).logs_or_empty(id) == Seq::<MaintenanceLogView>::empty(),
{
}

/// An authorized `LogMaintenance` appends exactly one entry to the
/// equipment's list: one longer, the old entries unchanged in place, and
/// the new last entry carries the caller as performer and starts
/// unapproved.
pub proof fn lemma_log_maintenance_appends_one(
    s: StateView,
    caller: Seq<char>,
    now: u64,
    equipment_id: Seq<char>,
    maintenance_type: Seq<char>,
    notes: Seq<char>,
)
    ensures
        ({
            let s1 = log_maintenance_next(s, caller, now, equipment_id, maintenance_type, notes);
            let before = s.logs_or_empty(equipment_id);
            let after = s1.logs_or_empty(equipment_id);
            &&& s1.logs.contains_key(equipment_id)
            &&& after.len() == before.len() + 1
            &&& after.take(before.len() as int) == before
            &&& after.last() == made_log_entry(caller, now, equipment_id, maintenance_type, notes)
            &&& after.last().performed_by == caller
            &&& after.last().supervisor_approved == false
            &&& s1.equipment == s.equipment
            &&& s1.users == s.users
        }),
{
    let before = s.logs_or_empty(equipment_id);
    let entry = made_log_entry(caller, now, equipment_id, maintenance_type, notes);
    assert(before.push(entry).take(before.len() as int) =~= before);
}

/// A `LogMaintenance` against one equipment id leaves every other
/// equipment's maintenance list untouched.
pub proof fn lemma_log_maintenance_touches_one_key(
    s: StateView,
    caller: Seq<char>,
    now: u64,
    equipment_id: Seq<char>,
    maintenance_type: Seq<char>,
    notes: Seq<char>,
    other: Seq<char>,
)
    requires
        other != equipment_id,
    ensures
        log_maintenance_next(s, caller, now, equipment_id, maintenance_type, notes).logs_or_empty(
            other,
        ) == s.logs_or_empty(other),
{
}

/// Clearing the inventory removes every equipment record and every
/// maintenance list, and any correct listing of the cleared state is
/// empty; users and contract info stay.
pub proof fn lemma_clear_inventory_clears_everything(s: StateView, es: Seq<EquipmentView>)
    ensures
        clear_inventory_next(s).equipment.dom() == Set::<Seq<char>>::empty(),
        clear_inventory_next(s).logs.dom() == Set::<Seq<char>>::empty(),
        clear_inventory_next(s).users == s.users,
        clear_inventory_next(s).contract_info == s.contract_info,
        lists_equipment(clear_inventory_next(s), es) ==> es == Seq::<EquipmentView>::empty(),
{
    let s1 = clear_inventory_next(s);
    assert(s1.equipment.dom() =~= Set::<Seq<char>>::empty());
    assert(s1.logs.dom() =~= Set::<Seq<char>>::empty());
    if lists_equipment(s1, es) {
        if es.len() > 0 {
            assert(s1.equipment.contains_key(es[0].id));
        }
        assert(es =~= Seq::<EquipmentView>::empty());
    }
}

/// Some record of `s` carries the id `k`.
pub open spec fn seq_has_id(s: Seq<EquipmentView>, k: Seq<char>) -> bool {
    exists|i: int| 0 <= i < s.len() && (#[trigger] s[i]).id == k
}

/// Two strictly ascending sequences that carry the same ids, and agree on
/// the record behind every shared id, are the same sequence.
#[verifier::rlimit(30)]
proof fn lemma_sorted_same_keys_equal(a: Seq<EquipmentView>, b: Seq<EquipmentView>)
    requires
        forall|i: int, j: int|
            0 <= i < j < a.len() ==> lex_lt(
                key_bytes((#[trigger] a[i]).id),
                key_bytes((#[trigger] a[j]).id),
            ),
        forall|i: int, j: int|
            0 <= i < j < b.len() ==> lex_lt(
                key_bytes((#[trigger] b[i]).id),
                key_bytes((#[trigger] b[j]).id),
            ),
        forall|i: int| 0 <= i < a.len() ==> seq_has_id(b, (#[trigger] a[i]).id),
        forall|j: int| 0 <= j < b.len() ==> seq_has_id(a, (#[trigger] b[j]).id),
        forall|i: int, j: int|
            0 <= i < a.len() && 0 <= j < b.len() && (#[trigger] a[i]).id == (#[trigger] b[j]).id
                ==> a[i] == b[j],
    ensures
        a == b,
    decreases a.len(),
{
    if a.len() == 0 {
        assert(b.len() == 0) by {
            if b.len() > 0 {
                assert(seq_has_id(a, b[0].id));
            }
        }
        assert(a =~= b);
    } else {
        assert(b.len() > 0) by {
            assert(seq_has_id(b, a[0].id));
        }
        // The heads carry the same id: each head's id occurs in the other
        // sequence, and a strictly later occurrence would order the two
        // heads both ways round.
        assert(a[0].id == b[0].id) by {
            if a[0].id != b[0].id {
                assert(seq_has_id(b, a[0].id));
                assert(seq_has_id(a, b[0].id));
                let j = choose|j: int| 0 <= j < b.len() && (#[trigger] b[j]).id == a[0].id;
                let i = choose|i: int| 0 <= i < a.len() && (#[trigger] a[i]).id == b[0].id;
                assert(j > 0);
                assert(i > 0);
                assert(lex_lt(key_bytes(b[0].id), key_bytes(a[0].id)));
                assert(lex_lt(key_bytes(a[0].id), key_bytes(b[0].id)));
                lemma_lex_lt_transitive(key_bytes(a[0].id), key_bytes(b[0].id), key_bytes(a[0].id));
                lemma_lex_lt_irreflexive(key_bytes(a[0].id));
            }
        }
        assert(a[0] == b[0]);
        let at = a.drop_first();
        let bt = b.drop_first();
        assert(forall|i: int| 0 <= i < at.len() ==> #[trigger] at[i] == a[i + 1]);
        assert(forall|j: int| 0 <= j < bt.len() ==> #[trigger] bt[j] == b[j + 1]);
        assert forall|i: int| 0 <= i < at.len() implies seq_has_id(bt, (#[trigger] at[i]).id) by {
            assert(seq_has_id(b, a[i + 1].id));
            let j = choose|j: int| 0 <= j < b.len() && (#[trigger] b[j]).id == a[i + 1].id;
            assert(j > 0) by {
                if j == 0 {
                    // then a[i + 1].id == a[0].id, against strict ascent
                    assert(lex_lt(key_bytes(a[0].id), key_bytes(a[i + 1].id)));
                    lemma_lex_lt_irreflexive(key_bytes(a[0].id));
                }
            }
            assert(bt[j - 1].id == at[i].id);
        }
        assert forall|j: int| 0 <= j < bt.len() implies seq_has_id(at, (#[trigger] bt[j]).id) by {
            assert(seq_has_id(a, b[j + 1].id));
            let i = choose|i: int| 0 <= i < a.len() && (#[trigger] a[i]).id == b[j + 1].id;
            assert(i > 0) by {
                if i == 0 {
                    assert(lex_lt(key_bytes(b[0].id), key_bytes(b[j + 1].id)));
                    lemma_lex_lt_irreflexive(key_bytes(b[0].id));
                }
            }
            assert(at[i - 1].id == bt[j].id);
        }
        lemma_sorted_same_keys_equal(at, bt);
        assert forall|i: int| 0 <= i < a.len() implies a[i] == b[i] by {
            if i > 0 {
                assert(at[i - 1] == a[i]);
                assert(bt[i - 1] == b[i]);
                assert(at[i - 1] == bt[i - 1]);
            }
        }
        assert(a =~= b);
    }
}

/// The listing contract is categorical: any two correct listings of one
/// state are the same sequence, record for record.
pub proof fn lemma_listing_is_unique(s: StateView, a: Seq<EquipmentView>, b: Seq<EquipmentView>)
    requires
        lists_equipment(s, a),
        lists_equipment(s, b),
    ensures
        a == b,
{
    assert forall|i: int| 0 <= i < a.len() implies seq_has_id(b, (#[trigger] a[i]).id) by {
        assert(s.equipment.contains_key(a[i].id));
        let j = choose|j: int| 0 <= j < b.len() && (#[trigger] b[j]).id == a[i].id;
        assert(b[j].id == a[i].id);
    }
    assert forall|j: int| 0 <= j < b.len() implies seq_has_id(a, (#[trigger] b[j]).id) by {
        assert(s.equipment.contains_key(b[j].id));
        let i = choose|i: int| 0 <= i < a.len() && (#[trigger] a[i]).id == b[j].id;
        assert(a[i].id == b[j].id);
    }
    assert forall|i: int, j: int|
        0 <= i < a.len() && 0 <= j < b.len() && (#[trigger] a[i]).id == (#[trigger] b[j]).id
        implies a[i] == b[j] by {
        assert(a[i] == s.equipment[a[i].id]);
        assert(b[j] == s.equipment[b[j].id]);
    }
    lemma_sorted_same_keys_equal(a, b);
}

/// An authorized `AddUser` with email `E` and role `R` makes a point
/// lookup of `E` return exactly `{E, R, the calling admin's
/// organization}`; equipment and logs stay.
pub proof fn lemma_added_user_is_queryable(
    s: StateView,
    caller: Seq<char>,
    email: Seq<char>,
    role: UserRole,
)
    ensures
        ({
            let s1 = add_user_next(s, caller, email, role);
            &&& s1.users.contains_key(email)
            &&& s1.users[email] == (UserView {
                email,
                role,
                organization_id: s.users[caller].organization_id,
            })
            &&& s1.equipment == s.equipment
            &&& s1.logs == s.logs
        }),
{
}

} // verus!
