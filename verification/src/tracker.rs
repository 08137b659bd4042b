//! The activation tracker: which bound shortcuts are currently held
//! down, and the display text derived from that.
//!
//! The tracker records the authoritative list of bound shortcuts that
//! the backend granted and a set of currently active identifiers. An
//! activation inserts into the set (idempotently); a deactivation
//! removes from it, and a deactivation of an identifier that was never
//! activated is reported to the caller as an anomaly — a backend
//! inconsistency worth logging, never an error. After every change the
//! display text is recomputed: each bound shortcut in its recorded
//! order as `id: trigger`, active entries wrapped in `<b>`…`</b>`,
//! joined with `, `.

use vstd::prelude::*;

verus! {

/// A shortcut the backend actually bound, with the trigger it chose.
pub struct BoundShortcut {
    /// Identifier of the shortcut, as granted by the backend.
    pub id: String,
    /// Human-readable description of the trigger the backend assigned.
    pub trigger_description: String,
}

/// Mathematical image of a [`BoundShortcut`].
#[verifier::ext_equal]
pub struct BoundShortcutView {
    pub id: Seq<char>,
    pub trigger_description: Seq<char>,
}

impl View for BoundShortcut {
    type V = BoundShortcutView;

    open spec fn view(&self) -> BoundShortcutView {
        BoundShortcutView { id: self.id@, trigger_description: self.trigger_description@ }
    }
}

/// The views of a sequence of bound shortcuts.
pub open spec fn bound_views(v: Seq<BoundShortcut>) -> Seq<BoundShortcutView> {
    v.map_values(|b: BoundShortcut| b@)
}

/// The set of identifiers a sequence of strings holds.
pub open spec fn id_set(ids: Seq<String>) -> Set<Seq<char>> {
    Set::new(|x: Seq<char>| exists|j: int| 0 <= j < ids.len() && ids[j]@ == x)
}

/// Mathematical image of an [`ActivationTracker`]: the bound list in
/// its recorded order, and the set of active identifiers.
#[verifier::ext_equal]
pub struct TrackerView {
    pub bound: Seq<BoundShortcutView>,
    pub active: Set<Seq<char>>,
}

/// The tracker state after an `Activated` event for `id`.
pub open spec fn activate_spec(t: TrackerView, id: Seq<char>) -> TrackerView {
    TrackerView { bound: t.bound, active: t.active.insert(id) }
}

/// The tracker state after a `Deactivated` event for `id`, paired with
/// whether the event was an anomaly (a deactivation of an identifier
/// that was not active).
pub open spec fn deactivate_spec(t: TrackerView, id: Seq<char>) -> (TrackerView, bool) {
    (TrackerView { bound: t.bound, active: t.active.remove(id) }, !t.active.contains(id))
}

/// The display text of one bound shortcut: `id: trigger`, wrapped in
/// bold markup while the shortcut is active.
pub open spec fn entry_markup(b: BoundShortcutView, active: bool) -> Seq<char> {
    if active {
        "<b>"@ + b.id + ": "@ + b.trigger_description + "</b>"@
    } else {
        b.id + ": "@ + b.trigger_description
    }
}

/// The whole display text: every bound shortcut in recorded order,
/// active ones emphasized, joined with `, `.
pub open spec fn render_spec(bound: Seq<BoundShortcutView>, active: Set<Seq<char>>) -> Seq<char>
    decreases bound.len(),
{
    if bound.len() == 0 {
        Seq::empty()
    } else {
        let e = entry_markup(bound.last(), active.contains(bound.last().id));
        if bound.len() == 1 {
            e
        } else {
            render_spec(bound.drop_last(), active) + ", "@ + e
        }
    }
}

/// Tracks the bound shortcuts and which of them are currently active.
pub struct ActivationTracker {
    bound: Vec<BoundShortcut>,
    active: Vec<String>,
}

impl View for ActivationTracker {
    type V = TrackerView;

    closed spec fn view(&self) -> TrackerView {
        TrackerView { bound: bound_views(self.bound@), active: id_set(self.active@) }
    }
}

impl ActivationTracker {
    /// The active identifiers are stored without duplicates.
    pub closed spec fn wf(&self) -> bool {
        forall|j: int, k: int|
            0 <= j < k < self.active@.len() ==> #[trigger] self.active@[j]@ != #[trigger] self.active@[k]@
    }

    /// A fresh tracker: nothing bound, nothing active.
    pub fn new() -> (t: ActivationTracker)
        ensures
            t.wf(),
            t@.bound =~= Seq::<BoundShortcutView>::empty(),
            t@.active =~= Set::<Seq<char>>::empty(),
    {
        let t = ActivationTracker { bound: Vec::new(), active: Vec::new() };
        proof {
            assert(t@.active =~= Set::<Seq<char>>::empty());
            assert(t@.bound =~= Seq::<BoundShortcutView>::empty());
        }
        t
    }

    /// Record the authoritative bound list the backend returned,
    /// replacing whatever was recorded before.
    pub fn set_bound(&mut self, bound: Vec<BoundShortcut>)
        requires
            old(self).wf(),
        ensures
            final(self).wf(),
            final(self)@.bound == bound_views(bound@),
            final(self)@.active == old(self)@.active,
    {
        self.bound = bound;
    }

    /// Forget the bound list and every activation.
    pub fn clear(&mut self)
        ensures
            final(self).wf(),
            final(self)@.bound =~= Seq::<BoundShortcutView>::empty(),
            final(self)@.active =~= Set::<Seq<char>>::empty(),
    {
        self.bound.clear();
        self.active.clear();
        proof {
            assert(self@.active =~= Set::<Seq<char>>::empty());
            assert(self@.bound =~= Seq::<BoundShortcutView>::empty());
        }
    }

    /// Index of `id` among the active identifiers, if it is active.
    fn index_of_active(&self, id: &String) -> (r: Option<usize>)
        ensures
            match r {
                Option::Some(j) => j < self.active@.len() && self.active@[j as int]@ == id@,
                Option::None => forall|j: int| 0 <= j < self.active@.len() ==> self.active@[j]@ != id@,
            },
    {
        let mut i: usize = 0;
        while i < self.active.len()
            invariant
                i <= self.active@.len(),
                forall|j: int| 0 <= j < i ==> self.active@[j]@ != id@,
            decreases self.active@.len() - i,
        {
            if self.active[i] == *id {
                return Option::Some(i);
            }
            i = i + 1;
        }
        Option::None
    }

    /// Whether the shortcut with this identifier is currently active.
    pub fn is_active(&self, id: &String) -> (r: bool)
        ensures
            r == self@.active.contains(id@),
    {
        let r = self.index_of_active(id);
        proof {
            if r is Some {
                let j = r->Some_0 as int;
                assert(self.active@[j]@ == id@);
                assert(self@.active.contains(id@));
            } else {
                if self@.active.contains(id@) {
                    let j = choose|j: int| 0 <= j < self.active@.len() && self.active@[j]@ == id@;
                    assert(false);
                }
            }
        }
        r.is_some()
    }

    /// Apply an `Activated` event: insert the identifier into the
    /// active set. A second activation of the same identifier changes
    /// nothing.
    pub fn activate(&mut self, id: String)
        requires
            old(self).wf(),
        ensures
            final(self).wf(),
            final(self)@ == activate_spec(old(self)@, id@),
    {
        let present = self.is_active(&id);
        let ghost olds = self.active@;
        if !present {
            self.active.push(id);
            proof {
                let news = self.active@;
                assert forall|x: Seq<char>| id_set(news).contains(x) implies id_set(olds).insert(
                    id@,
                ).contains(x) by {
                    let j = choose|j: int| 0 <= j < news.len() && news[j]@ == x;
                    if j < olds.len() {
                        assert(olds[j]@ == x);
                        assert(id_set(olds).contains(x));
                    } else {
                        assert(news[j] == id);
                    }
                }
                assert forall|x: Seq<char>| id_set(olds).insert(id@).contains(x) implies id_set(
                    news,
                ).contains(x) by {
                    if id_set(olds).contains(x) {
                        let j = choose|j: int| 0 <= j < olds.len() && olds[j]@ == x;
                        assert(news[j]@ == x);
                    } else {
                        assert(news[olds.len() as int]@ == x);
                    }
                }
                assert(id_set(news) =~= id_set(olds).insert(id@));
                assert forall|a: int, b: int|
                    0 <= a < b < news.len() implies #[trigger] news[a]@ != #[trigger] news[b]@ by {
                    if b == olds.len() {
                        assert(news[a]@ == olds[a]@);
                        if olds[a]@ == id@ {
                            assert(id_set(olds).contains(id@));
                        }
                    }
                }
            }
        } else {
            proof {
                assert(id_set(olds).contains(id@));
                assert(id_set(olds) =~= id_set(olds).insert(id@));
            }
        }
    }

    /// Apply a `Deactivated` event: remove the identifier from the
    /// active set. Returns true when the identifier was not active —
    /// an anomaly the caller should log; the state is then unchanged.
    pub fn deactivate(&mut self, id: &String) -> (anomaly: bool)
        requires
            old(self).wf(),
        ensures
            final(self).wf(),
            final(self)@ == deactivate_spec(old(self)@, id@).0,
            anomaly == deactivate_spec(old(self)@, id@).1,
    {
        let found = self.index_of_active(id);
        let ghost olds = self.active@;
        match found {
            Option::Some(j) => {
                self.active.remove(j);
                proof {
                    let news = self.active@;
                    let ji = j as int;
                    assert(news =~= olds.subrange(0, ji) + olds.subrange(
                        ji + 1,
                        olds.len() as int,
                    ));
                    assert(id_set(olds).contains(id@));
                    assert forall|x: Seq<char>| id_set(news).contains(x) implies id_set(
                        olds,
                    ).remove(id@).contains(x) by {
                        let k = choose|k: int| 0 <= k < news.len() && news[k]@ == x;
                        if k < ji {
                            assert(olds[k]@ == x);
                            assert(x != id@);
                        } else {
                            assert(olds[k + 1]@ == x);
                            assert(x != id@);
                        }
                    }
                    assert forall|x: Seq<char>| id_set(olds).remove(id@).contains(x) implies id_set(
                        news,
                    ).contains(x) by {
                        let k = choose|k: int| 0 <= k < olds.len() && olds[k]@ == x;
                        assert(k != ji);
                        if k < ji {
                            assert(news[k]@ == x);
                        } else {
                            assert(news[k - 1]@ == x);
                        }
                    }
                    assert(id_set(news) =~= id_set(olds).remove(id@));
                    assert forall|a: int, b: int|
                        0 <= a < b < news.len() implies #[trigger] news[a]@ != #[trigger] news[b]@ by {
                        if b < ji {
                        } else if a < ji {
                            assert(news[b]@ == olds[b + 1]@);
                        } else {
                            assert(news[a]@ == olds[a + 1]@);
                            assert(news[b]@ == olds[b + 1]@);
                        }
                    }
                }
                false
            },
            Option::None => {
                proof {
                    if id_set(olds).contains(id@) {
                        let j = choose|j: int| 0 <= j < olds.len() && olds[j]@ == id@;
                        assert(false);
                    }
                    assert(id_set(olds) =~= id_set(olds).remove(id@));
                }
                true
            },
        }
    }

    /// The display text for the current state.
    pub fn render(&self) -> (r: String)
        ensures
            r@ == render_spec(self@.bound, self@.active),
    {
        let ghost bv = bound_views(self.bound@);
        let ghost act = id_set(self.active@);
        let mut acc = String::new();
        let mut i: usize = 0;
        proof {
            assert(bv.take(0) =~= Seq::<BoundShortcutView>::empty());
        }
        while i < self.bound.len()
            invariant
                i <= self.bound@.len(),
                bv == bound_views(self.bound@),
                act == id_set(self.active@),
                acc@ == render_spec(bv.take(i as int), act),
            decreases self.bound@.len() - i,
        {
            if i > 0 {
                acc.append(", ");
            }
            let active = self.is_active(&self.bound[i].id);
            if active {
                acc.append("<b>");
                acc.append(self.bound[i].id.as_str());
                acc.append(": ");
                acc.append(self.bound[i].trigger_description.as_str());
                acc.append("</b>");
            } else {
                acc.append(self.bound[i].id.as_str());
                acc.append(": ");
                acc.append(self.bound[i].trigger_description.as_str());
            }
            proof {
                let ii = i as int;
                assert(bv.take(ii + 1).drop_last() =~= bv.take(ii));
                assert(bv.take(ii + 1).last() == bv[ii]);
                assert(bv[ii].id == self.bound@[ii].id@);
                assert(acc@ =~= render_spec(bv.take(ii + 1), act));
            }
            i = i + 1;
        }
        proof {
            assert(bv.take(self.bound@.len() as int) =~= bv);
        }
        acc
    }
}

/// Law: activation is idempotent — two consecutive `Activated` events
/// for the same identifier leave the tracker exactly where one left
/// it, so the activation set converges to a single occurrence.
pub proof fn lemma_activation_idempotent(t: TrackerView, x: Seq<char>)
    ensures
        activate_spec(activate_spec(t, x), x) == activate_spec(t, x),
{
    assert(t.active.insert(x).insert(x) =~= t.active.insert(x));
    assert(activate_spec(activate_spec(t, x), x) =~= activate_spec(t, x));
}

/// Law: deactivation is symmetric to activation — for an identifier
/// that is not active, `Activated{x}` followed by `Deactivated{x}`
/// restores the tracker to its previous state, without an anomaly.
pub proof fn lemma_deactivation_restores(t: TrackerView, x: Seq<char>)
    requires
        !t.active.contains(x),
    ensures
        deactivate_spec(activate_spec(t, x), x).0 == t,
        !deactivate_spec(activate_spec(t, x), x).1,
{
    assert(t.active.insert(x).remove(x) =~= t.active);
    assert(deactivate_spec(activate_spec(t, x), x).0 =~= t);
}

/// Law: a `Deactivated{y}` for an identifier that was never activated
/// leaves the tracker unchanged and is reported as exactly one anomaly.
pub proof fn lemma_deactivate_unknown_is_anomaly(t: TrackerView, y: Seq<char>)
    requires
        !t.active.contains(y),
    ensures
        deactivate_spec(t, y).0 == t,
        deactivate_spec(t, y).1,
{
    assert(t.active.remove(y) =~= t.active);
    assert(deactivate_spec(t, y).0 =~= t);
}

} // verus!
