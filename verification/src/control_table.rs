//! The keyboard's divertable controls: which of them a capture session
//! diverts, and how a snapshot of the pressed ones becomes input edges.

use std::collections::{BTreeMap, BTreeSet};

use vstd::prelude::*;

use crate::binding::ButtonId;
use crate::translator::CapturedInput;

verus! {

broadcast use {
    vstd::std_specs::btree::group_btree_axioms,
    vstd::laws_cmp::group_laws_cmp,
};

/// The entries of a control table from control `k` up, in ascending order.
pub open spec fn ascending_from(table: Map<u16, ButtonId>, k: int) -> Seq<(u16, ButtonId)>
    decreases 0x10000 - k,
{
    if k < 0 || k > 0xffff {
        Seq::empty()
    } else if table.contains_key(k as u16) {
        seq![(k as u16, table[k as u16])] + ascending_from(table, k + 1)
    } else {
        ascending_from(table, k + 1)
    }
}

/// The entries of a control table in ascending order of control.
pub open spec fn ascending(table: Map<u16, ButtonId>) -> Seq<(u16, ButtonId)> {
    ascending_from(table, 0)
}

/// Whether `entries` lists, in strictly ascending order, the entries of
/// `table` from control `k` up.
pub open spec fn lists(entries: Seq<(u16, ButtonId)>, table: Map<u16, ButtonId>, k: int) -> bool {
    &&& forall|i: int, j: int|
        0 <= i < j < entries.len() ==> (#[trigger] entries[i]).0 < (#[trigger] entries[j]).0
    &&& forall|i: int|
        0 <= i < entries.len() ==> (#[trigger] entries[i]).0 >= k && table.contains_key(
            entries[i].0,
        ) && table[entries[i].0] == entries[i].1
    &&& forall|c: u16| #[trigger]
        table.contains_key(c) && c >= k ==> exists|i: int|
            0 <= i < entries.len() && (#[trigger] entries[i]).0 == c
}

/// A table has one ascending listing.
pub proof fn lemma_lists_is_ascending(
    entries: Seq<(u16, ButtonId)>,
    table: Map<u16, ButtonId>,
    k: int,
)
    requires
        0 <= k <= 0x10000,
        lists(entries, table, k),
    ensures
        entries == ascending_from(table, k),
    decreases 0x10000 - k,
{
    if k > 0xffff {
        if entries.len() > 0 {
            assert(entries[0].0 >= k);
        }
        assert(entries =~= Seq::empty());
    } else if table.contains_key(k as u16) {
        let i = choose|i: int| 0 <= i < entries.len() && (#[trigger] entries[i]).0 == k as u16;
        if i > 0 {
            assert(entries[0].0 < entries[i].0);
        }
        let rest = entries.drop_first();
        assert forall|c: u16| #[trigger] table.contains_key(c) && c >= k + 1 implies exists|j: int|
            0 <= j < rest.len() && (#[trigger] rest[j]).0 == c by {
            let j = choose|j: int| 0 <= j < entries.len() && (#[trigger] entries[j]).0 == c;
            assert(rest[j - 1] == entries[j]);
        }
        assert forall|j: int| 0 <= j < rest.len() implies (#[trigger] rest[j]).0 >= k + 1
            && table.contains_key(rest[j].0) && table[rest[j].0] == rest[j].1 by {
            assert(rest[j] == entries[j + 1]);
            assert(entries[0].0 < entries[j + 1].0);
        }
        lemma_lists_is_ascending(rest, table, k + 1);
        assert(entries =~= seq![entries[0]] + rest);
    } else {
        assert forall|j: int| 0 <= j < entries.len() implies (#[trigger] entries[j]).0 >= k + 1 by {
            assert(table.contains_key(entries[j].0));
        }
        lemma_lists_is_ascending(entries, table, k + 1);
    }
}

proof fn lemma_ascending_lists(table: Map<u16, ButtonId>, k: int)
    requires
        0 <= k <= 0x10000,
    ensures
        lists(ascending_from(table, k), table, k),
    decreases 0x10000 - k,
{
    if k <= 0xffff {
        lemma_ascending_lists(table, k + 1);
        let rest = ascending_from(table, k + 1);
        let all = ascending_from(table, k);
        if table.contains_key(k as u16) {
            assert forall|c: u16| #[trigger] table.contains_key(c) && c >= k implies exists|j: int|
                0 <= j < all.len() && (#[trigger] all[j]).0 == c by {
                if c == k {
                    assert(all[0].0 == c);
                } else {
                    let j = choose|j: int| 0 <= j < rest.len() && (#[trigger] rest[j]).0 == c;
                    assert(all[j + 1] == rest[j]);
                }
            }
            assert forall|i: int, j: int| 0 <= i < j < all.len() implies (#[trigger] all[i]).0 < (
            #[trigger] all[j]).0 by {
                assert(all[j] == rest[j - 1]);
                if i > 0 {
                    assert(all[i] == rest[i - 1]);
                }
            }
            assert forall|j: int| 0 <= j < all.len() implies (#[trigger] all[j]).0 >= k
                && table.contains_key(all[j].0) && table[all[j].0] == all[j].1 by {
                if j > 0 {
                    assert(all[j] == rest[j - 1]);
                }
            }
        } else {
            assert(all == rest);
        }
    }
}

/// The ascending entries of a control table: each of its controls once, in
/// strictly ascending order.
pub proof fn lemma_ascending_entries(table: Map<u16, ButtonId>)
    ensures
        ascending(table).len() <= 0x10000,
        forall|i: int, j: int|
            0 <= i < j < ascending(table).len() ==> (#[trigger] ascending(table)[i]).0 < (
            #[trigger] ascending(table)[j]).0,
        forall|i: int|
            0 <= i < ascending(table).len() ==> table.contains_key(
                (#[trigger] ascending(table)[i]).0,
            ) && table[ascending(table)[i].0] == ascending(table)[i].1,
        forall|c: u16| #[trigger]
            table.contains_key(c) ==> exists|i: int|
                0 <= i < ascending(table).len() && (#[trigger] ascending(table)[i]).0 == c,
{
    lemma_ascending_lists(table, 0);
    lemma_ascending_is_spread(ascending(table), ascending(table).len() as int - 1);
}

proof fn lemma_ascending_is_spread(entries: Seq<(u16, ButtonId)>, i: int)
    requires
        i < entries.len(),
        forall|i: int, j: int|
            0 <= i < j < entries.len() ==> (#[trigger] entries[i]).0 < (#[trigger] entries[j]).0,
    ensures
        0 <= i ==> entries[i].0 >= i,
    decreases i,
{
    if 0 < i {
        lemma_ascending_is_spread(entries, i - 1);
        assert(entries[i - 1].0 < entries[i].0);
    }
}

/// The entries of a control table in ascending order of control.
pub fn key_list(table: &BTreeMap<u16, ButtonId>) -> (r: Vec<(u16, ButtonId)>)
    ensures
        r@ == ascending(table@),
{
    let mut out: Vec<(u16, ButtonId)> = Vec::new();
    let iter = table.iter();
    let ghost all = vstd::std_specs::iter::IteratorSpec::remaining(&iter);
    proof {
        let controls = choose|s: Seq<u16>| #[trigger]
            vstd::std_specs::btree::increasing_seq(s) && s.len() == all.len() && forall|i: int|
                0 <= i < all.len() ==> #[trigger] s[i] == *all[i].0;
        assert forall|i: int, j: int| 0 <= i < j < all.len() implies *(#[trigger] all[i]).0 < *(
        #[trigger] all[j]).0 by {
            assert(controls[i] == *all[i].0 && controls[j] == *all[j].0);
            assert(vstd::std_specs::cmp::OrdSpec::cmp_spec(&controls[i], &controls[j]) is Less);
        }
    }
    for entry in it: iter
        invariant
            it.seq() == all,
            out@.len() == it.index(),
            forall|i: int| 0 <= i < out@.len() ==> out@[i] == (*all[i].0, *all[i].1),
    {
        out.push((*entry.0, *entry.1));
    }
    assert forall|c: u16| #[trigger] table@.contains_key(c) implies exists|i: int|
        0 <= i < out@.len() && (#[trigger] out@[i]).0 == c by {
        assert(all.contains((&c, &table@[c])));
        let i = choose|i: int| 0 <= i < all.len() && all[i] == (&c, &table@[c]);
        assert(out@[i].0 == c);
    }
    assert forall|i: int| 0 <= i < out@.len() implies table@.contains_key((#[trigger] out@[i]).0)
        && table@[out@[i].0] == out@[i].1 by {
        assert(table@.contains_key(*all[i].0));
    }
    proof {
        assert(lists(out@, table@, 0));
        lemma_lists_is_ascending(out@, table@, 0);
    }
    out
}

/// The divertable keyboard F-row controls, as `(control ID, button)` pairs.
pub const KEYBOARD_KEY_CIDS: [(u16, ButtonId); 9] = [
    (0x00d4, ButtonId::KeySearch),
    (0x0103, ButtonId::KeyDictation),
    (0x0108, ButtonId::KeyEmoji),
    (0x010a, ButtonId::KeyScreenCapture),
    (0x011c, ButtonId::KeyMicMute),
    (0x00e5, ButtonId::KeyPlayPause),
    (0x00e7, ButtonId::KeyMute),
    (0x00e8, ButtonId::KeyVolumeDown),
    (0x00e9, ButtonId::KeyVolumeUp),
];

/// What one keyboard capture session should divert.
///
/// Both halves are gated on real bindings by the caller: an unbound control is
/// never diverted, so it keeps its native firmware function.
#[derive(Debug, PartialEq, Eq)]
pub struct KeyboardCaptureTargets {
    /// Control ID to button, for exactly the bound F-row keys.
    pub keys: BTreeMap<u16, ButtonId>,
    /// Whether to divert the crown dial. Ignored by a keyboard that exposes no
    /// crown.
    pub crown: bool,
}

/// What a capture session diverts.
pub struct TargetsView {
    /// Control ID to button.
    pub keys: Map<u16, ButtonId>,
    /// Whether the crown is diverted.
    pub crown: bool,
}

impl View for KeyboardCaptureTargets {
    type V = TargetsView;

    open spec fn view(&self) -> TargetsView {
        TargetsView { keys: self.keys@, crown: self.crown }
    }
}

impl Default for KeyboardCaptureTargets {
    fn default() -> (r: Self)
        ensures
            r@ == (TargetsView { keys: Map::<u16, ButtonId>::empty(), crown: false }),
    {
        KeyboardCaptureTargets { keys: BTreeMap::new(), crown: false }
    }
}

impl Clone for KeyboardCaptureTargets {
    fn clone(&self) -> (r: Self)
        ensures
            r@ == self@,
    {
        let entries = key_list(&self.keys);
        let mut keys: BTreeMap<u16, ButtonId> = BTreeMap::new();
        let mut i: usize = 0;
        proof {
            lemma_ascending_lists(self.keys@, 0);
        }
        while i < entries.len()
            invariant
                entries@ == ascending(self.keys@),
                lists(entries@, self.keys@, 0),
                i <= entries@.len(),
                forall|c: u16| #[trigger]
                    keys@.contains_key(c) <==> exists|k: int|
                        0 <= k < i && (#[trigger] entries@[k]).0 == c,
                forall|c: u16| #[trigger]
                    keys@.contains_key(c) ==> self.keys@.contains_key(c) && keys@[c]
                        == self.keys@[c],
            decreases entries@.len() - i,
        {
            let (control, button) = entries[i];
            let ghost before = keys@;
            keys.insert(control, button);
            assert forall|c: u16| #[trigger] keys@.contains_key(c) <==> exists|k: int|
                0 <= k < i + 1 && (#[trigger] entries@[k]).0 == c by {
                if c == control {
                    assert(entries@[i as int].0 == c);
                } else if before.contains_key(c) {
                    let k = choose|k: int| 0 <= k < i && (#[trigger] entries@[k]).0 == c;
                    assert(entries@[k].0 == c);
                }
            }
            i += 1;
        }
        assert(keys@ =~= self.keys@);
        KeyboardCaptureTargets { keys, crown: self.crown }
    }
}

impl KeyboardCaptureTargets {
    /// Whether this session would divert nothing at all.
    pub fn is_empty(&self) -> (r: bool)
        ensures
            r == (self@.keys == Map::<u16, ButtonId>::empty() && !self@.crown),
    {
        assert(self.keys@.len() == 0 <==> self.keys@ == Map::<u16, ButtonId>::empty()) by {
            if self.keys@.len() == 0 {
                assert(self.keys@.dom() =~= Set::<u16>::empty());
                assert(self.keys@ =~= Map::<u16, ButtonId>::empty());
            }
        }
        self.keys.is_empty() && !self.crown
    }

    /// Whether two sessions divert the same controls as the same buttons.
    pub fn same(&self, other: &KeyboardCaptureTargets) -> (r: bool)
        ensures
            r == (self@ == other@),
    {
        let a = key_list(&self.keys);
        let b = key_list(&other.keys);
        proof {
            lemma_ascending_determines(self.keys@, other.keys@);
        }
        if self.crown != other.crown || a.len() != b.len() {
            return false;
        }
        let mut i: usize = 0;
        while i < a.len()
            invariant
                a@ == ascending(self.keys@),
                b@ == ascending(other.keys@),
                ascending(self.keys@) == ascending(other.keys@) <==> self.keys@ == other.keys@,
                i <= a@.len(),
                a@.len() == b@.len(),
                forall|k: int| 0 <= k < i ==> a@[k] == b@[k],
            decreases a@.len() - i,
        {
            if a[i].0 != b[i].0 || a[i].1 != b[i].1 {
                assert(a@[i as int] != b@[i as int]);
                return false;
            }
            i += 1;
        }
        assert(a@ =~= b@);
        true
    }
}

/// A control table is determined by its entries in order.
proof fn lemma_ascending_determines(a: Map<u16, ButtonId>, b: Map<u16, ButtonId>)
    ensures
        ascending(a) == ascending(b) <==> a == b,
{
    if ascending(a) == ascending(b) {
        lemma_ascending_lists(a, 0);
        lemma_ascending_lists(b, 0);
        let entries = ascending(a);
        assert forall|c: u16| #[trigger] a.contains_key(c) implies b.contains_key(c) && a[c]
            == b[c] by {
            let i = choose|i: int| 0 <= i < entries.len() && (#[trigger] entries[i]).0 == c;
            assert(entries[i].0 == c);
        }
        assert forall|c: u16| #[trigger] b.contains_key(c) implies a.contains_key(c) by {
            let i = choose|i: int| 0 <= i < entries.len() && (#[trigger] entries[i]).0 == c;
            assert(entries[i].0 == c);
        }
        assert(a =~= b);
    }
}

/// The edge one control's transition makes: down when it is pressed now and
/// was not, up when it was and is not now, none when nothing changed.
pub open spec fn edge(entry: (u16, ButtonId), down: Set<u16>, now: Set<u16>) -> Seq<
    CapturedInput,
> {
    if now.contains(entry.0) && !down.contains(entry.0) {
        seq![CapturedInput::ButtonDown(entry.1)]
    } else if !now.contains(entry.0) && down.contains(entry.0) {
        seq![CapturedInput::ButtonUp(entry.1)]
    } else {
        Seq::empty()
    }
}

/// The edges of all controls' transitions, in the order of `entries`.
pub open spec fn edges(entries: Seq<(u16, ButtonId)>, down: Set<u16>, now: Set<u16>) -> Seq<
    CapturedInput,
>
    decreases entries.len(),
{
    if entries.len() == 0 {
        Seq::empty()
    } else {
        edges(entries.drop_last(), down, now) + edge(entries.last(), down, now)
    }
}

/// The controls held after a snapshot: the diverted ones as it shows them, the
/// others as they were.
pub open spec fn held_after(
    table: Map<u16, ButtonId>,
    down: Set<u16>,
    now: Set<u16>,
) -> Set<u16> {
    Set::new(
        |c: u16|
            if table.contains_key(c) {
                now.contains(c)
            } else {
                down.contains(c)
            },
    )
}

fn pressed(cids: &[u16], cid: u16) -> (r: bool)
    ensures
        r == cids@.to_set().contains(cid),
{
    let mut i: usize = 0;
    while i < cids.len()
        invariant
            i <= cids@.len(),
            forall|k: int| 0 <= k < i ==> cids@[k] != cid,
        decreases cids@.len() - i,
    {
        if cids[i] == cid {
            assert(cids@.contains(cids@[i as int]));
            return true;
        }
        i += 1;
    }
    assert(!cids@.contains(cid));
    false
}

/// Diff one full diverted-control snapshot into exactly one edge per physical
/// transition. Unchanged snapshots are deliberately silent.
pub fn emit_button_edges(
    down: &mut BTreeSet<u16>,
    cids: &[u16],
    diverted: &BTreeMap<u16, ButtonId>,
) -> (out: Vec<CapturedInput>)
    ensures
        out@ == edges(ascending(diverted@), old(down)@, cids@.to_set()),
        final(down)@ == held_after(diverted@, old(down)@, cids@.to_set()),
{
    let entries = key_list(diverted);
    let ghost was = down@;
    let ghost shown = cids@.to_set();
    let mut out: Vec<CapturedInput> = Vec::new();
    let mut i: usize = 0;
    proof {
        lemma_ascending_lists(diverted@, 0);
        assert(entries@.take(0) =~= Seq::<(u16, ButtonId)>::empty());
    }
    while i < entries.len()
        invariant
            entries@ == ascending(diverted@),
            lists(entries@, diverted@, 0),
            shown == cids@.to_set(),
            i <= entries@.len(),
            out@ == edges(entries@.take(i as int), was, shown),
            forall|c: u16|
                #![trigger down@.contains(c)]
                down@.contains(c) == if exists|k: int| 0 <= k < i && (#[trigger] entries@[k]).0
                    == c {
                    shown.contains(c)
                } else {
                    was.contains(c)
                },
        decreases entries@.len() - i,
    {
        let (cid, button) = entries[i];
        let ghost held = down@;
        assert(forall|k: int| 0 <= k < i ==> (#[trigger] entries@[k]).0 < entries@[i as int].0);
        let now: bool = pressed(cids, cid);
        let before: bool = down.contains(&cid);
        assert(before == was.contains(cid));
        let ghost sooner = out@;
        if now && !before {
            out.push(CapturedInput::ButtonDown(button));
        } else if !now && before {
            out.push(CapturedInput::ButtonUp(button));
        }
        if now {
            down.insert(cid);
        } else {
            down.remove(&cid);
        }
        proof {
            assert(entries@.take(i + 1).drop_last() =~= entries@.take(i as int));
            assert(entries@.take(i + 1).last() == entries@[i as int]);
            assert(out@ =~= sooner + edge(entries@[i as int], was, shown));
            assert forall|c: u16| #![trigger down@.contains(c)]
                down@.contains(c) == if exists|k: int|
                    0 <= k < i + 1 && (#[trigger] entries@[k]).0 == c {
                    shown.contains(c)
                } else {
                    was.contains(c)
                } by {
                assert(held.contains(c) == held.contains(c));
                if c == cid {
                    assert(entries@[i as int].0 == c);
                } else {
                    assert(down@.contains(c) == held.contains(c));
                    if exists|k: int| 0 <= k < i + 1 && (#[trigger] entries@[k]).0 == c {
                        let k = choose|k: int| 0 <= k < i + 1 && (#[trigger] entries@[k]).0 == c;
                        assert(k < i);
                    }
                }
            }
        }
        i += 1;
    }
    proof {
        assert(entries@.take(entries@.len() as int) =~= entries@);
        assert forall|c: u16| down@.contains(c) == held_after(diverted@, was, shown).contains(
            c,
        ) by {
            if diverted@.contains_key(c) {
                let k = choose|k: int| 0 <= k < entries@.len() && (#[trigger] entries@[k]).0 == c;
                assert(entries@[k].0 == c);
            }
        }
        assert(down@ =~= held_after(diverted@, was, shown));
    }
    out
}

/// A snapshot that shows what is already held makes no edge.
pub proof fn law_unchanged_snapshot_is_silent(
    table: Map<u16, ButtonId>,
    down: Set<u16>,
    now: Set<u16>,
)
    requires
        forall|c: u16| #[trigger] table.contains_key(c) ==> (down.contains(c) == now.contains(c)),
    ensures
        edges(ascending(table), down, now) == Seq::<CapturedInput>::empty(),
{
    lemma_ascending_lists(table, 0);
    lemma_silent(ascending(table), down, now);
}

proof fn lemma_silent(entries: Seq<(u16, ButtonId)>, down: Set<u16>, now: Set<u16>)
    requires
        forall|i: int|
            0 <= i < entries.len() ==> (down.contains((#[trigger] entries[i]).0) == now.contains(
                entries[i].0,
            )),
    ensures
        edges(entries, down, now) == Seq::<CapturedInput>::empty(),
    decreases entries.len(),
{
    if entries.len() > 0 {
        assert(entries[entries.len() - 1] == entries.last());
        lemma_silent(entries.drop_last(), down, now);
        assert(edges(entries, down, now) =~= Seq::<CapturedInput>::empty());
    }
}

/// The edges of a run of snapshots.
pub open spec fn edges_all(
    table: Map<u16, ButtonId>,
    down: Set<u16>,
    snapshots: Seq<Set<u16>>,
) -> Seq<CapturedInput>
    decreases snapshots.len(),
{
    if snapshots.len() == 0 {
        Seq::empty()
    } else {
        edges_all(table, down, snapshots.drop_last()) + edges(
            ascending(table),
            held_after_all(table, down, snapshots.drop_last()),
            snapshots.last(),
        )
    }
}

/// The controls held after a run of snapshots.
pub open spec fn held_after_all(
    table: Map<u16, ButtonId>,
    down: Set<u16>,
    snapshots: Seq<Set<u16>>,
) -> Set<u16>
    decreases snapshots.len(),
{
    if snapshots.len() == 0 {
        down
    } else {
        held_after(
            table,
            held_after_all(table, down, snapshots.drop_last()),
            snapshots.last(),
        )
    }
}

/// The edges of any run of snapshots are balanced: a control that alone stands
/// for its button goes down only while it is up and up only while it is down,
/// and ends held exactly when the last snapshot shows it.
pub proof fn law_snapshot_edges_balance(
    table: Map<u16, ButtonId>,
    down: Set<u16>,
    snapshots: Seq<Set<u16>>,
    control: u16,
)
    requires
        table.contains_key(control),
        forall|c: u16| #[trigger]
            table.contains_key(c) && table[c] == table[control] ==> c == control,
    ensures
        crate::translator::hold_after(
            edges_all(table, down, snapshots),
            table[control],
            down.contains(control),
        ) == Some(held_after_all(table, down, snapshots).contains(control)),
    decreases snapshots.len(),
{
    if snapshots.len() > 0 {
        let sooner = snapshots.drop_last();
        law_snapshot_edges_balance(table, down, sooner, control);
        let held = held_after_all(table, down, sooner);
        let shown = snapshots.last();
        lemma_ascending_lists(table, 0);
        let entries = ascending(table);
        lemma_one_snapshot_balances(entries, table, held, shown, control);
        assert(exists|i: int| 0 <= i < entries.len() && (#[trigger] entries[i]).0 == control);
        crate::translator::lemma_hold_after_concat(
            edges_all(table, down, sooner),
            edges(entries, held, shown),
            table[control],
            down.contains(control),
        );
    }
}

proof fn lemma_one_snapshot_balances(
    entries: Seq<(u16, ButtonId)>,
    table: Map<u16, ButtonId>,
    held: Set<u16>,
    shown: Set<u16>,
    control: u16,
)
    requires
        table.contains_key(control),
        forall|c: u16| #[trigger]
            table.contains_key(c) && table[c] == table[control] ==> c == control,
        forall|i: int|
            0 <= i < entries.len() ==> table.contains_key((#[trigger] entries[i]).0)
                && table[entries[i].0] == entries[i].1,
        forall|i: int, j: int|
            0 <= i < j < entries.len() ==> (#[trigger] entries[i]).0 < (#[trigger] entries[j]).0,
    ensures
        crate::translator::hold_after(
            edges(entries, held, shown),
            table[control],
            held.contains(control),
        ) == Some(
            if exists|i: int| 0 <= i < entries.len() && (#[trigger] entries[i]).0 == control {
                shown.contains(control)
            } else {
                held.contains(control)
            },
        ),
    decreases entries.len(),
{
    if entries.len() > 0 {
        let sooner = entries.drop_last();
        let last = entries.last();
        assert(entries[entries.len() - 1] == last);
        assert forall|i: int| 0 <= i < sooner.len() implies table.contains_key(
            (#[trigger] sooner[i]).0,
        ) && table[sooner[i].0] == sooner[i].1 by {
            assert(sooner[i] == entries[i]);
        }
        assert forall|i: int, j: int| 0 <= i < j < sooner.len() implies (#[trigger] sooner[i]).0 < (
        #[trigger] sooner[j]).0 by {
            assert(sooner[i] == entries[i] && sooner[j] == entries[j]);
        }
        lemma_one_snapshot_balances(sooner, table, held, shown, control);
        crate::translator::lemma_hold_after_concat(
            edges(sooner, held, shown),
            edge(last, held, shown),
            table[control],
            held.contains(control),
        );
        reveal_with_fuel(crate::translator::hold_after, 2);
        if exists|i: int| 0 <= i < sooner.len() && (#[trigger] sooner[i]).0 == control {
            let i = choose|i: int| 0 <= i < sooner.len() && (#[trigger] sooner[i]).0 == control;
            assert(entries[i].0 == control);
            assert(entries[i].0 < entries[entries.len() - 1].0);
        } else if last.0 != control {
            assert(!(exists|i: int|
                0 <= i < entries.len() && (#[trigger] entries[i]).0 == control)) by {
                if exists|i: int| 0 <= i < entries.len() && (#[trigger] entries[i]).0 == control {
                    let i = choose|i: int|
                        0 <= i < entries.len() && (#[trigger] entries[i]).0 == control;
                    assert(i < entries.len() - 1);
                    assert(sooner[i].0 == control);
                }
            }
        }
    }
}

/// What one snapshot tells: a button goes down exactly when a control that
/// stands for it is pressed now and was not, comes up exactly when one was and
/// is not now, and nothing else is reported.
pub proof fn law_a_snapshot_tells_every_transition(
    table: Map<u16, ButtonId>,
    down: Set<u16>,
    now: Set<u16>,
    button: ButtonId,
)
    ensures
        ({
            let out = edges(ascending(table), down, now);
            &&& out.contains(CapturedInput::ButtonDown(button)) <==> exists|c: u16| #[trigger]
                table.contains_key(c) && table[c] == button && now.contains(c) && !down.contains(c)
            &&& out.contains(CapturedInput::ButtonUp(button)) <==> exists|c: u16| #[trigger]
                table.contains_key(c) && table[c] == button && !now.contains(c) && down.contains(c)
            &&& forall|i: int|
                0 <= i < out.len() ==> #[trigger] out[i] is ButtonDown || out[i] is ButtonUp
        }),
{
    lemma_ascending_lists(table, 0);
    let entries = ascending(table);
    lemma_edges_of(entries, down, now, button);
    let out = edges(entries, down, now);
    if exists|c: u16| #[trigger]
        table.contains_key(c) && table[c] == button && now.contains(c) && !down.contains(c) {
        let c = choose|c: u16| #[trigger]
            table.contains_key(c) && table[c] == button && now.contains(c) && !down.contains(c);
        let i = choose|i: int| 0 <= i < entries.len() && (#[trigger] entries[i]).0 == c;
        assert(entries[i].1 == button);
    }
    if exists|c: u16| #[trigger]
        table.contains_key(c) && table[c] == button && !now.contains(c) && down.contains(c) {
        let c = choose|c: u16| #[trigger]
            table.contains_key(c) && table[c] == button && !now.contains(c) && down.contains(c);
        let i = choose|i: int| 0 <= i < entries.len() && (#[trigger] entries[i]).0 == c;
        assert(entries[i].1 == button);
    }
    if out.contains(CapturedInput::ButtonDown(button)) {
        let i = choose|i: int|
            0 <= i < entries.len() && (#[trigger] entries[i]).1 == button && now.contains(
                entries[i].0,
            ) && !down.contains(entries[i].0);
        assert(table.contains_key(entries[i].0));
    }
    if out.contains(CapturedInput::ButtonUp(button)) {
        let i = choose|i: int|
            0 <= i < entries.len() && (#[trigger] entries[i]).1 == button && !now.contains(
                entries[i].0,
            ) && down.contains(entries[i].0);
        assert(table.contains_key(entries[i].0));
    }
}

proof fn lemma_edges_of(
    entries: Seq<(u16, ButtonId)>,
    down: Set<u16>,
    now: Set<u16>,
    button: ButtonId,
)
    ensures
        edges(entries, down, now).contains(CapturedInput::ButtonDown(button)) <==> exists|i: int|
            0 <= i < entries.len() && (#[trigger] entries[i]).1 == button && now.contains(
                entries[i].0,
            ) && !down.contains(entries[i].0),
        edges(entries, down, now).contains(CapturedInput::ButtonUp(button)) <==> exists|i: int|
            0 <= i < entries.len() && (#[trigger] entries[i]).1 == button && !now.contains(
                entries[i].0,
            ) && down.contains(entries[i].0),
        forall|i: int|
            0 <= i < edges(entries, down, now).len() ==> #[trigger] edges(entries, down, now)[i]
                is ButtonDown || edges(entries, down, now)[i] is ButtonUp,
    decreases entries.len(),
{
    if entries.len() > 0 {
        let sooner = entries.drop_last();
        let last = entries.last();
        lemma_edges_of(sooner, down, now, button);
        let a = edges(sooner, down, now);
        let b = edge(last, down, now);
        let out = edges(entries, down, now);
        assert(out == a + b);
        assert(entries[entries.len() - 1] == last);
        assert forall|input: CapturedInput| #[trigger]
            out.contains(input) <==> a.contains(input) || b.contains(input) by {
            if a.contains(input) {
                let k = choose|k: int| 0 <= k < a.len() && a[k] == input;
                assert(out[k] == input);
            }
            if b.contains(input) {
                let k = choose|k: int| 0 <= k < b.len() && b[k] == input;
                assert(out[a.len() + k] == input);
            }
            if out.contains(input) {
                let k = choose|k: int| 0 <= k < out.len() && out[k] == input;
                if k < a.len() {
                    assert(a[k] == input);
                } else {
                    assert(b[k - a.len()] == input);
                }
            }
        }
        if b.len() > 0 {
            assert(b.contains(b[0]));
        }
        assert(forall|i: int| 0 <= i < sooner.len() ==> sooner[i] == entries[i]);
        if exists|i: int|
            0 <= i < sooner.len() && (#[trigger] sooner[i]).1 == button && now.contains(sooner[i].0)
                && !down.contains(sooner[i].0) {
            let i = choose|i: int|
                0 <= i < sooner.len() && (#[trigger] sooner[i]).1 == button && now.contains(
                    sooner[i].0,
                ) && !down.contains(sooner[i].0);
            assert(entries[i].1 == button);
        }
        if exists|i: int|
            0 <= i < sooner.len() && (#[trigger] sooner[i]).1 == button && !now.contains(
                sooner[i].0,
            ) && down.contains(sooner[i].0) {
            let i = choose|i: int|
                0 <= i < sooner.len() && (#[trigger] sooner[i]).1 == button && !now.contains(
                    sooner[i].0,
                ) && down.contains(sooner[i].0);
            assert(entries[i].1 == button);
        }
    }
}

/// After a snapshot a diverted control is held exactly when the snapshot shows
/// it; no other control is touched.
pub proof fn law_a_snapshot_settles_what_is_held(
    table: Map<u16, ButtonId>,
    down: Set<u16>,
    now: Set<u16>,
    control: u16,
)
    ensures
        table.contains_key(control) ==> held_after(table, down, now).contains(control)
            == now.contains(control),
        !table.contains_key(control) ==> held_after(table, down, now).contains(control)
            == down.contains(control),
{
}

/// The key table gives each of the nine divertable keys its own control, and
/// lists no control and no key twice.
pub proof fn law_every_key_has_its_own_control()
    ensures
        KEYBOARD_KEY_CIDS@.len() == 9,
        forall|i: int, j: int|
            0 <= i < j < 9 ==> (#[trigger] KEYBOARD_KEY_CIDS@[i]).0 != (
            #[trigger] KEYBOARD_KEY_CIDS@[j]).0 && KEYBOARD_KEY_CIDS@[i].1
                != KEYBOARD_KEY_CIDS@[j].1,
        KEYBOARD_KEY_CIDS@.contains((0x00d4u16, ButtonId::KeySearch)),
        KEYBOARD_KEY_CIDS@.contains((0x0103u16, ButtonId::KeyDictation)),
        KEYBOARD_KEY_CIDS@.contains((0x0108u16, ButtonId::KeyEmoji)),
        KEYBOARD_KEY_CIDS@.contains((0x010au16, ButtonId::KeyScreenCapture)),
        KEYBOARD_KEY_CIDS@.contains((0x011cu16, ButtonId::KeyMicMute)),
        KEYBOARD_KEY_CIDS@.contains((0x00e5u16, ButtonId::KeyPlayPause)),
        KEYBOARD_KEY_CIDS@.contains((0x00e7u16, ButtonId::KeyMute)),
        KEYBOARD_KEY_CIDS@.contains((0x00e8u16, ButtonId::KeyVolumeDown)),
        KEYBOARD_KEY_CIDS@.contains((0x00e9u16, ButtonId::KeyVolumeUp)),
{
    let t = KEYBOARD_KEY_CIDS@;
    assert(t[0] == (0x00d4u16, ButtonId::KeySearch));
    assert(t[1] == (0x0103u16, ButtonId::KeyDictation));
    assert(t[2] == (0x0108u16, ButtonId::KeyEmoji));
    assert(t[3] == (0x010au16, ButtonId::KeyScreenCapture));
    assert(t[4] == (0x011cu16, ButtonId::KeyMicMute));
    assert(t[5] == (0x00e5u16, ButtonId::KeyPlayPause));
    assert(t[6] == (0x00e7u16, ButtonId::KeyMute));
    assert(t[7] == (0x00e8u16, ButtonId::KeyVolumeDown));
    assert(t[8] == (0x00e9u16, ButtonId::KeyVolumeUp));
}

} // verus!
