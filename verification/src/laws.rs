//! What holds of the index across operations.

use vstd::prelude::*;

use crate::text::{decimal, digits_value, is_digit, law_decimal_reads_back};
use crate::cert::{
    find_id, first_with_id, has_id, lemma_find_id, spec_activate, spec_add, spec_deactivate,
    spec_remove, stored_name, CertView, IndexView, anchor_links, apply_change, has_active_named,
    spec_activate_change, spec_deactivate_change, spec_remove_change, lemma_active_names_contains,
    with_active, seg_scan, meaningful, path_file_name,
};

verus! {

proof fn lemma_same_ids_same_find(a: Seq<CertView>, b: Seq<CertView>, id: u32)
    requires
        a.len() == b.len(),
        forall|k: int| 0 <= k < a.len() ==> #[trigger] a[k].id == b[k].id,
    ensures
        find_id(a, id) == find_id(b, id),
{
    lemma_find_id(a, id);
    lemma_find_id(b, id);
    let fa = find_id(a, id);
    let fb = find_id(b, id);
    if fa >= 0 {
        assert(b[fa].id == id);
        if fb < 0 {
            assert(has_id(b, id));
        } else {
            if fb < fa {
                assert(a[fb].id == id);
            }
            if fa < fb {
                assert(b[fa].id == id);
            }
        }
    } else if fb >= 0 {
        assert(a[fb].id == id);
        assert(has_id(a, id));
    }
}

/// Only one certificate is ever active: after activating a certificate that is in the
/// index, it and no other is active.
pub proof fn law_activate_exclusive(v: IndexView, id: u32)
    requires
        has_id(v.certs, id),
    ensures
        forall|i: int|
            0 <= i < v.certs.len() ==> (#[trigger] spec_activate(v, id).certs[i].active <==> i
                == find_id(v.certs, id)),
        exists|i: int|
            0 <= i < v.certs.len() && #[trigger] spec_activate(v, id).certs[i].active && spec_activate(
                v,
                id,
            ).certs[i].id == id,
{
    lemma_find_id(v.certs, id);
    let p = find_id(v.certs, id);
    assert(spec_activate(v, id).certs[p].active);
}

/// Activating or deactivating a certificate changes no id, name or position, and hands
/// out no id.
pub proof fn law_toggle_keeps_entries(v: IndexView, id: u32)
    ensures
        spec_activate(v, id).next_id == v.next_id,
        spec_deactivate(v, id).next_id == v.next_id,
        spec_activate(v, id).certs.len() == v.certs.len(),
        spec_deactivate(v, id).certs.len() == v.certs.len(),
        forall|i: int|
            0 <= i < v.certs.len() ==> #[trigger] spec_activate(v, id).certs[i].id == v.certs[i].id
                && spec_activate(v, id).certs[i].name == v.certs[i].name,
        forall|i: int|
            0 <= i < v.certs.len() ==> #[trigger] spec_deactivate(v, id).certs[i].id == v.certs[i].id
                && spec_deactivate(v, id).certs[i].name == v.certs[i].name,
{
    lemma_find_id(v.certs, id);
}

/// Deactivating a certificate leaves every other certificate as it was.
pub proof fn law_deactivate_touches_only_target(v: IndexView, id: u32)
    ensures
        forall|i: int|
            0 <= i < v.certs.len() && i != find_id(v.certs, id) ==> #[trigger] spec_deactivate(
                v,
                id,
            ).certs[i] == v.certs[i],
        has_id(v.certs, id) ==> !spec_deactivate(v, id).certs[find_id(v.certs, id)].active,
{
    lemma_find_id(v.certs, id);
}

/// Activating a certificate and then deactivating it leaves no certificate active.
pub proof fn law_activate_then_deactivate(v: IndexView, id: u32)
    requires
        has_id(v.certs, id),
    ensures
        forall|i: int|
            0 <= i < v.certs.len() ==> !(#[trigger] spec_deactivate(spec_activate(v, id), id).certs[i].active),
{
    let a = spec_activate(v, id);
    law_toggle_keeps_entries(v, id);
    lemma_same_ids_same_find(v.certs, a.certs, id);
    law_activate_exclusive(v, id);
    lemma_find_id(v.certs, id);
}

/// Activating the same certificate twice is the same as activating it once.
pub proof fn law_activate_idempotent(v: IndexView, id: u32)
    ensures
        spec_activate(spec_activate(v, id), id) == spec_activate(v, id),
{
    let a = spec_activate(v, id);
    law_toggle_keeps_entries(v, id);
    lemma_same_ids_same_find(v.certs, a.certs, id);
    lemma_find_id(v.certs, id);
    if find_id(v.certs, id) >= 0 {
        assert(spec_activate(a, id).certs =~= a.certs);
    }
}

/// A newly added certificate gets an id that no certificate in a well-formed index has,
/// greater than every id in it.
pub proof fn law_add_fresh_id(v: IndexView, name: Seq<char>)
    requires
        v.wf(),
        v.next_id < u32::MAX,
    ensures
        spec_add(v, name).certs.last().id == v.next_id + 1,
        forall|i: int| 0 <= i < v.certs.len() ==> #[trigger] v.certs[i].id < spec_add(v, name).certs.last().id,
        !has_id(v.certs, spec_add(v, name).certs.last().id),
{
    let nid = spec_add(v, name).certs.last().id;
    if has_id(v.certs, nid) {
        let k = choose|k: int| 0 <= k < v.certs.len() && #[trigger] v.certs[k].id == nid;
        assert(v.certs[k].id <= v.next_id);
    }
}

/// Ids stay stable: an id that was in a well-formed index is never handed out again,
/// also after its certificate was removed.
pub proof fn law_removed_id_not_reused(v: IndexView, id: u32, name: Seq<char>)
    requires
        v.wf(),
        v.next_id < u32::MAX,
        has_id(v.certs, id),
    ensures
        spec_add(spec_remove(v, id), name).certs.last().id != id,
        !has_id(spec_remove(v, id).certs, id),
{
    lemma_find_id(v.certs, id);
    let p = find_id(v.certs, id);
    assert(v.certs[p].id <= v.next_id);
    let r = spec_remove(v, id).certs;
    if has_id(r, id) {
        let k = choose|k: int| 0 <= k < r.len() && #[trigger] r[k].id == id;
        if k < p {
            assert(r[k] == v.certs[k]);
        } else {
            assert(r[k] == v.certs[k + 1]);
        }
    }
}

/// Adding a certificate and removing it again gives back the certificates there were;
/// only the handed-out id stays used.
pub proof fn law_add_then_remove(v: IndexView, name: Seq<char>)
    requires
        v.wf(),
        v.next_id < u32::MAX,
    ensures
        spec_remove(spec_add(v, name), (v.next_id + 1) as u32).certs == v.certs,
        spec_remove(spec_add(v, name), (v.next_id + 1) as u32).next_id == v.next_id + 1,
{
    let a = spec_add(v, name);
    let nid = (v.next_id + 1) as u32;
    law_add_fresh_id(v, name);
    assert forall|j: int| 0 <= j < v.certs.len() implies #[trigger] a.certs[j].id != nid by {
        assert(a.certs[j] == v.certs[j]);
    }
    assert(first_with_id(a.certs, nid, v.certs.len() as int));
    lemma_find_id(a.certs, nid);
    lemma_first_unique(a.certs, nid, v.certs.len() as int);
    assert(a.certs.remove(v.certs.len() as int) =~= v.certs);
}

proof fn lemma_first_unique(certs: Seq<CertView>, id: u32, i: int)
    requires
        first_with_id(certs, id, i),
    ensures
        find_id(certs, id) == i,
{
    lemma_find_id(certs, id);
    let f = find_id(certs, id);
    if f < i {
        assert(certs[f].id == id);
    }
    if i < f {
        assert(certs[i].id == id);
    }
}

/// Every operation keeps a well-formed index well-formed.
pub proof fn law_operations_keep_wf(v: IndexView, id: u32, name: Seq<char>)
    requires
        v.wf(),
    ensures
        v.next_id < u32::MAX ==> spec_add(v, name).wf(),
        spec_activate(v, id).wf(),
        spec_deactivate(v, id).wf(),
        spec_remove(v, id).wf(),
{
    lemma_find_id(v.certs, id);
    let p = find_id(v.certs, id);
    if p >= 0 {
        let w = spec_remove(v, id);
        assert forall|i: int, j: int|
            0 <= i < w.certs.len() && 0 <= j < w.certs.len() && #[trigger] w.certs[i].active
                && #[trigger] w.certs[j].active implies i == j by {
            let i2 = if i < p { i } else { i + 1 };
            let j2 = if j < p { j } else { j + 1 };
            assert(w.certs[i] == v.certs[i2]);
            assert(w.certs[j] == v.certs[j2]);
        }
        assert forall|i: int, j: int| 0 <= i < j < w.certs.len() implies #[trigger] w.certs[i].id
            != #[trigger] w.certs[j].id by {
            let i2 = if i < p { i } else { i + 1 };
            let j2 = if j < p { j } else { j + 1 };
            assert(w.certs[i] == v.certs[i2]);
            assert(w.certs[j] == v.certs[j2]);
        }
        assert forall|i: int| 0 <= i < w.certs.len() implies #[trigger] w.certs[i].id <= w.next_id by {
            let i2 = if i < p { i } else { i + 1 };
            assert(w.certs[i] == v.certs[i2]);
        }
    }
    if v.next_id < u32::MAX {
        let a = spec_add(v, name);
        assert forall|i: int| 0 <= i < a.certs.len() implies #[trigger] a.certs[i].id <= a.next_id by {
            if i < v.certs.len() {
                assert(a.certs[i] == v.certs[i]);
            }
        }
        assert forall|i: int, j: int| 0 <= i < j < a.certs.len() implies #[trigger] a.certs[i].id
            != #[trigger] a.certs[j].id by {
            assert(a.certs[i] == v.certs[i]);
            if j < v.certs.len() {
                assert(a.certs[j] == v.certs[j]);
            } else {
                assert(v.certs[i].id <= v.next_id);
            }
        }
    }
}

/// Removing a certificate from a well-formed index removes exactly that one and keeps
/// the others in their order.
pub proof fn law_remove_exact(v: IndexView, id: u32)
    requires
        v.wf(),
        has_id(v.certs, id),
    ensures
        spec_remove(v, id).certs.len() == v.certs.len() - 1,
        !has_id(spec_remove(v, id).certs, id),
        forall|i: int|
            0 <= i < v.certs.len() && v.certs[i].id != id ==> #[trigger] spec_remove(v, id).certs.contains(
                v.certs[i],
            ),
{
    lemma_find_id(v.certs, id);
    let p = find_id(v.certs, id);
    let r = spec_remove(v, id).certs;
    if has_id(r, id) {
        let k = choose|k: int| 0 <= k < r.len() && #[trigger] r[k].id == id;
        if k < p {
            assert(r[k] == v.certs[k]);
        } else {
            assert(r[k] == v.certs[k + 1]);
        }
    }
    assert forall|i: int| 0 <= i < v.certs.len() && v.certs[i].id != id implies #[trigger] r.contains(
        v.certs[i],
    ) by {
        if i < p {
            assert(r[i] == v.certs[i]);
        } else {
            assert(i != p);
            assert(r[i - 1] == v.certs[i]);
        }
    }
}

/// The stored file of a certificate keeps its name while certificates are activated and
/// deactivated: the certificate found under an id has the same stored name before and
/// after, so the file that adding stored is the one that activating links and removing
/// deletes.
pub proof fn law_stored_name_stable(v: IndexView, id: u32, other: u32)
    requires
        has_id(v.certs, id),
    ensures
        find_id(spec_activate(v, other).certs, id) == find_id(v.certs, id),
        find_id(spec_deactivate(v, other).certs, id) == find_id(v.certs, id),
        stored_name(spec_activate(v, other).certs[find_id(v.certs, id)]) == stored_name(
            v.certs[find_id(v.certs, id)],
        ),
        stored_name(spec_deactivate(v, other).certs[find_id(v.certs, id)]) == stored_name(
            v.certs[find_id(v.certs, id)],
        ),
{
    law_toggle_keeps_entries(v, other);
    lemma_same_ids_same_find(v.certs, spec_activate(v, other).certs, id);
    lemma_same_ids_same_find(v.certs, spec_deactivate(v, other).certs, id);
    lemma_find_id(v.certs, id);
}

/// The certificate that adding registers is found under its id, with the name it was
/// added under.
pub proof fn law_added_is_found(v: IndexView, name: Seq<char>)
    requires
        v.wf(),
        v.next_id < u32::MAX,
    ensures
        find_id(spec_add(v, name).certs, (v.next_id + 1) as u32) == v.certs.len(),
        spec_add(v, name).certs[v.certs.len() as int].name == name,
        !spec_add(v, name).certs[v.certs.len() as int].active,
{
    let a = spec_add(v, name);
    let nid = (v.next_id + 1) as u32;
    law_add_fresh_id(v, name);
    assert forall|j: int| 0 <= j < v.certs.len() implies #[trigger] a.certs[j].id != nid by {
        assert(a.certs[j] == v.certs[j]);
    }
    assert(first_with_id(a.certs, nid, v.certs.len() as int));
    lemma_first_unique(a.certs, nid, v.certs.len() as int);
}

/// The trust-anchor links follow the active certificates: applying the link change of
/// an operation to the links of the active certificates gives the links of the active
/// certificates afterwards, and adding a certificate changes no link. So the anchors hold
/// a link exactly for each active certificate, as long as every change is applied.
pub proof fn law_anchor_links_follow(v: IndexView, id: u32, name: Seq<char>)
    ensures
        has_id(v.certs, id) ==> apply_change(anchor_links(v.certs), spec_activate_change(v, id))
            == anchor_links(spec_activate(v, id).certs),
        has_id(v.certs, id) ==> apply_change(anchor_links(v.certs), spec_deactivate_change(v, id))
            == anchor_links(spec_deactivate(v, id).certs),
        has_id(v.certs, id) ==> apply_change(anchor_links(v.certs), spec_remove_change(v, id))
            == anchor_links(spec_remove(v, id).certs),
        anchor_links(spec_add(v, name).certs) == anchor_links(v.certs),
{
    lemma_find_id(v.certs, id);
    let b = v.certs;
    let pos = find_id(b, id);
    if has_id(b, id) {
        // activating
        let after = spec_activate(v, id).certs;
        let change = spec_activate_change(v, id);
        let applied = apply_change(anchor_links(b), change);
        assert forall|n: Seq<char>| applied.contains(n) == anchor_links(after).contains(n) by {
            lemma_active_names_contains(b, n);
            if has_active_named(after, n) {
                let k = choose|k: int| 0 <= k < after.len() && #[trigger] after[k].active && after[k].name == n;
                assert(after[k] == with_active(b[k], k == pos));
            }
            if n == b[pos].name {
                assert(after[pos].active);
                assert(has_active_named(after, n));
            }
        }
        assert(applied =~= anchor_links(after));
        // deactivating
        let after = spec_deactivate(v, id).certs;
        let change = spec_deactivate_change(v, id);
        let gone = change.unlink.to_set();
        if has_active_named(after, b[pos].name) {
            assert(gone =~= Set::<Seq<char>>::empty());
        } else {
            assert forall|m: Seq<char>| gone.contains(m) <==> m == b[pos].name by {
                if m == b[pos].name {
                    assert(change.unlink[0] == m);
                }
            }
            assert(gone =~= Set::<Seq<char>>::empty().insert(b[pos].name));
        }
        let applied = apply_change(anchor_links(b), change);
        assert forall|n: Seq<char>| applied.contains(n) == anchor_links(after).contains(n) by {
            if has_active_named(b, n) {
                let k = choose|k: int| 0 <= k < b.len() && #[trigger] b[k].active && b[k].name == n;
                if k != pos {
                    assert(after[k] == b[k]);
                }
            }
            if has_active_named(after, n) {
                let k = choose|k: int| 0 <= k < after.len() && #[trigger] after[k].active && after[k].name == n;
                assert(k != pos);
                assert(after[k] == b[k]);
            }
        }
        assert(applied =~= anchor_links(after));
        // removing
        let after = spec_remove(v, id).certs;
        let change = spec_remove_change(v, id);
        let c = b[pos];
        let gone = change.unlink.to_set();
        if c.active && !has_active_named(after, c.name) {
            assert forall|m: Seq<char>| gone.contains(m) <==> m == c.name by {
                if m == c.name {
                    assert(change.unlink[0] == m);
                }
            }
            assert(gone =~= Set::<Seq<char>>::empty().insert(c.name));
        } else {
            assert(gone =~= Set::<Seq<char>>::empty());
        }
        let applied = apply_change(anchor_links(b), change);
        assert forall|n: Seq<char>| applied.contains(n) == anchor_links(after).contains(n) by {
            if has_active_named(b, n) {
                let k = choose|k: int| 0 <= k < b.len() && #[trigger] b[k].active && b[k].name == n;
                if k < pos {
                    assert(after[k] == b[k]);
                } else if k > pos {
                    assert(after[k - 1] == b[k]);
                }
            }
            if has_active_named(after, n) {
                let k = choose|k: int| 0 <= k < after.len() && #[trigger] after[k].active && after[k].name == n;
                if k < pos {
                    assert(after[k] == b[k]);
                } else {
                    assert(after[k] == b[k + 1]);
                }
            }
        }
        assert(applied =~= anchor_links(after));
    }
    // adding
    let a = spec_add(v, name).certs;
    assert forall|n: Seq<char>| anchor_links(a).contains(n) == anchor_links(b).contains(n) by {
        if has_active_named(a, n) {
            let k = choose|k: int| 0 <= k < a.len() && #[trigger] a[k].active && a[k].name == n;
            assert(a[k] == b[k]);
        }
        if has_active_named(b, n) {
            let k = choose|k: int| 0 <= k < b.len() && #[trigger] b[k].active && b[k].name == n;
            assert(a[k] == b[k]);
        }
    }
    assert(anchor_links(a) =~= anchor_links(b));
}

/// An operation on the index, as histories of the index are written.
pub enum IndexOp {
    /// Adding a file of this name.
    Add(Seq<char>),
    Activate(u32),
    Deactivate(u32),
    Remove(u32),
}

/// The index after one operation. An add is only made while ids are left to hand out.
pub open spec fn apply_op(v: IndexView, op: IndexOp) -> IndexView {
    match op {
        IndexOp::Add(name) => if v.next_id < u32::MAX {
            spec_add(v, name)
        } else {
            v
        },
        IndexOp::Activate(id) => spec_activate(v, id),
        IndexOp::Deactivate(id) => spec_deactivate(v, id),
        IndexOp::Remove(id) => spec_remove(v, id),
    }
}

/// The index after a history of operations, oldest first.
pub open spec fn after_ops(v: IndexView, ops: Seq<IndexOp>) -> IndexView
    decreases ops.len(),
{
    if ops.len() == 0 {
        v
    } else {
        apply_op(after_ops(v, ops.drop_last()), ops.last())
    }
}

/// The id that the `j`-th operation of a history hands out, where it is an add.
pub open spec fn added_id(v: IndexView, ops: Seq<IndexOp>, j: int) -> u32 {
    (after_ops(v, ops.take(j)).next_id + 1) as u32
}

/// The `j`-th operation of a history is an add that is made.
pub open spec fn is_made_add(v: IndexView, ops: Seq<IndexOp>, j: int) -> bool {
    &&& 0 <= j < ops.len()
    &&& ops[j] is Add
    &&& after_ops(v, ops.take(j)).next_id < u32::MAX
}

proof fn lemma_history_wf_monotone(v: IndexView, ops: Seq<IndexOp>, i: int, j: int)
    requires
        v.wf(),
        0 <= i <= j <= ops.len(),
    ensures
        after_ops(v, ops.take(j)).wf(),
        after_ops(v, ops.take(i)).next_id <= after_ops(v, ops.take(j)).next_id,
    decreases j,
{
    if j > 0 {
        assert(ops.take(j).drop_last() =~= ops.take(j - 1));
        let prev = after_ops(v, ops.take(j - 1));
        if i < j {
            lemma_history_wf_monotone(v, ops, i, j - 1);
        } else {
            lemma_history_wf_monotone(v, ops, j - 1, j - 1);
        }
        let op = ops.take(j).last();
        match op {
            IndexOp::Add(name) => law_operations_keep_wf(prev, 0, name),
            IndexOp::Activate(id) => law_operations_keep_wf(prev, id, seq![]),
            IndexOp::Deactivate(id) => law_operations_keep_wf(prev, id, seq![]),
            IndexOp::Remove(id) => law_operations_keep_wf(prev, id, seq![]),
        }
    } else {
        assert(ops.take(0) =~= Seq::<IndexOp>::empty());
    }
}

/// Ids are never reused, over any history that starts from a well-formed index: an add
/// hands out an id greater than every id present at any earlier point of the history,
/// and greater than every id an earlier add handed out, also where that certificate has
/// since been removed.
pub proof fn law_ids_never_reused(v: IndexView, ops: Seq<IndexOp>, j: int)
    requires
        v.wf(),
        is_made_add(v, ops, j),
    ensures
        forall|i: int, k: int|
            0 <= i <= j && 0 <= k < after_ops(v, ops.take(i)).certs.len() ==> #[trigger] after_ops(
                v,
                ops.take(i),
            ).certs[k].id < added_id(v, ops, j),
        forall|i: int| 0 <= i < j && #[trigger] is_made_add(v, ops, i) ==> added_id(v, ops, i) < added_id(v, ops, j),
        after_ops(v, ops.take(j + 1)).certs.last().id == added_id(v, ops, j),
{
    assert forall|i: int, k: int|
        0 <= i <= j && 0 <= k < after_ops(v, ops.take(i)).certs.len() implies #[trigger] after_ops(
            v,
            ops.take(i),
        ).certs[k].id < added_id(v, ops, j) by {
        lemma_history_wf_monotone(v, ops, i, j);
        lemma_history_wf_monotone(v, ops, i, i);
        let w = after_ops(v, ops.take(i));
        assert(w.certs[k].id <= w.next_id);
    }
    assert forall|i: int| 0 <= i < j && #[trigger] is_made_add(v, ops, i) implies added_id(v, ops, i) < added_id(
        v,
        ops,
        j,
    ) by {
        lemma_history_wf_monotone(v, ops, i + 1, j);
        assert(ops.take(i + 1).drop_last() =~= ops.take(i));
        assert(ops.take(i + 1).last() == ops[i]);
    }
    assert(ops.take(j + 1).drop_last() =~= ops.take(j));
    assert(ops.take(j + 1).last() == ops[j]);
}

/// Listing after adding gives the earlier list with the new certificate last, inactive,
/// under the next id and the added name; every earlier certificate keeps its id, name and
/// status.
pub proof fn law_list_after_add(v: IndexView, name: Seq<char>)
    requires
        v.next_id < u32::MAX,
    ensures
        spec_add(v, name).certs == v.certs.push(
            CertView { id: (v.next_id + 1) as u32, name, active: false },
        ),
        spec_add(v, name).certs.len() == v.certs.len() + 1,
        forall|i: int| 0 <= i < v.certs.len() ==> #[trigger] spec_add(v, name).certs[i] == v.certs[i],
{
}

/// A stored file's name is the certificate's id in digits that read back as the id,
/// an underscore, and the certificate's name; so certificates with different ids are
/// stored under different names.
pub proof fn law_stored_name_fields(c: CertView) -> (id_digits: Seq<char>)
    ensures
        stored_name(c) == id_digits + seq!['_'] + c.name,
        id_digits.len() > 0,
        forall|i: int| 0 <= i < id_digits.len() ==> is_digit(#[trigger] id_digits[i]),
        digits_value(id_digits) == c.id,
{
    law_decimal_reads_back(c.id as nat);
    decimal(c.id as nat)
}

/// Certificates with different ids are stored under different file names.
pub proof fn law_stored_names_differ(a: CertView, b: CertView)
    requires
        a.id != b.id,
    ensures
        stored_name(a) != stored_name(b),
{
    let da = law_stored_name_fields(a);
    let db = law_stored_name_fields(b);
    let sa = stored_name(a);
    let sb = stored_name(b);
    if sa == sb {
        if da.len() < db.len() {
            assert(sa[da.len() as int] == '_');
            assert(sb[da.len() as int] == db[da.len() as int]);
            assert(is_digit(db[da.len() as int]));
        } else if db.len() < da.len() {
            assert(sb[db.len() as int] == '_');
            assert(sa[db.len() as int] == da[db.len() as int]);
            assert(is_digit(da[db.len() as int]));
        } else {
            assert forall|i: int| 0 <= i < da.len() implies da[i] == db[i] by {
                assert(sa[i] == da[i]);
                assert(sb[i] == db[i]);
            }
            assert(da =~= db);
        }
    }
}

proof fn lemma_not_meaningful_dots(seg: Seq<char>)
    requires
        !meaningful(seg),
    ensures
        forall|i: int| 0 <= i < seg.len() ==> #[trigger] seg[i] == '.',
{
    if seg.len() > 0 {
        assert(seg == seq!['.']);
    }
}

proof fn lemma_seg_scan(p: Seq<char>) -> (k: int)
    ensures
        ({
            let (last, cur) = seg_scan(p);
            &&& cur.len() <= p.len()
            &&& cur == p.subrange(p.len() - cur.len(), p.len() as int)
            &&& forall|i: int| 0 <= i < cur.len() ==> #[trigger] cur[i] != '/'
            &&& cur.len() < p.len() ==> p[p.len() - cur.len() - 1] == '/'
            &&& last matches Some(x) ==> {
                &&& meaningful(x)
                &&& forall|i: int| 0 <= i < x.len() ==> #[trigger] x[i] != '/'
                &&& 0 <= k
                &&& k + x.len() <= p.len() - cur.len() - 1
                &&& p.subrange(k, k + x.len()) == x
                &&& (k == 0 || p[k - 1] == '/')
                &&& forall|j: int| k + x.len() <= j < p.len() - cur.len() ==> #[trigger] p[j] == '/' || p[j] == '.'
            }
        }),
    decreases p.len(),
{
    if p.len() == 0 {
        0
    } else {
        let q = p.drop_last();
        let k0 = lemma_seg_scan(q);
        let (last0, cur0) = seg_scan(q);
        let ch = p.last();
        assert forall|i: int| 0 <= i < q.len() implies q[i] == #[trigger] p[i] by {}
        if ch == '/' {
            if meaningful(cur0) {
                let k = q.len() - cur0.len();
                assert(p.subrange(k, k + cur0.len()) =~= q.subrange(k, q.len() as int));
                if k > 0 {
                    assert(p[k - 1] == q[k - 1]);
                }
                k
            } else {
                lemma_not_meaningful_dots(cur0);
                if let Some(x) = last0 {
                    assert(p.subrange(k0, k0 + x.len()) =~= q.subrange(k0, k0 + x.len()));
                    assert forall|j: int| k0 + x.len() <= j < p.len() implies #[trigger] p[j] == '/' || p[j]
                        == '.' by {
                        if j < q.len() - cur0.len() {
                        } else if j < q.len() {
                            assert(p[j] == cur0[j - (q.len() - cur0.len())]);
                        }
                    }
                    if k0 > 0 {
                        assert(p[k0 - 1] == q[k0 - 1]);
                    }
                }
                k0
            }
        } else {
            let cur = cur0.push(ch);
            assert(cur =~= p.subrange(p.len() - cur.len(), p.len() as int));
            if cur.len() < p.len() {
                assert(p[p.len() - cur.len() - 1] == q[q.len() - cur0.len() - 1]);
            }
            if let Some(x) = last0 {
                assert(p.subrange(k0, k0 + x.len()) =~= q.subrange(k0, k0 + x.len()));
                if k0 > 0 {
                    assert(p[k0 - 1] == q[k0 - 1]);
                }
            }
            k0
        }
    }
}

/// A path's file name is a piece of the path that names something (it is neither empty,
/// `.` nor `..`, and holds no `/`), that starts the path or follows a `/`, and after
/// which the path holds only `/` and `.`.
pub proof fn law_file_name_is_last_segment(p: Seq<char>) -> (start: int)
    requires
        path_file_name(p) is Some,
    ensures
        ({
            let n = path_file_name(p)->0;
            &&& n.len() > 0
            &&& n != seq!['.']
            &&& n != seq!['.', '.']
            &&& forall|i: int| 0 <= i < n.len() ==> #[trigger] n[i] != '/'
            &&& 0 <= start
            &&& start + n.len() <= p.len()
            &&& p.subrange(start, start + n.len()) == n
            &&& (start == 0 || p[start - 1] == '/')
            &&& forall|j: int| start + n.len() <= j < p.len() ==> #[trigger] p[j] == '/' || p[j] == '.'
        }),
{
    let k = lemma_seg_scan(p);
    let (last, cur) = seg_scan(p);
    if meaningful(cur) {
        p.len() - cur.len()
    } else {
        lemma_not_meaningful_dots(cur);
        let x = last->0;
        assert forall|j: int| k + x.len() <= j < p.len() implies #[trigger] p[j] == '/' || p[j] == '.' by {
            if j >= p.len() - cur.len() {
                assert(p[j] == cur[j - (p.len() - cur.len())]);
            }
        }
        k
    }
}

} // verus!
