//! The stability-detection state machine.
//!
//! A tracker owns a data set (one slot per distinct packet identity) and a
//! counter. Feeding it a value either grows the data set (which resets all
//! stability evidence) or counts as one more unchanged cycle; after enough
//! consecutive unchanged cycles — three per tracked identity on average —
//! the set is declared stable.
//!
//! The executable tracker is specified against the abstract transition
//! function [`stability_step`] over [`StabilityView`], and the laws below
//! are proved of that transition function.

use vstd::prelude::*;
use vstd::arithmetic::div_mod::{
    lemma_div_by_multiple,
    lemma_div_is_ordered,
    lemma_fundamental_div_mod,
    lemma_mod_bound,
};
use crate::vbus::{
    data_identity,
    data_packet_id,
    ds_add,
    ds_as_data_slice,
    ds_identities,
    ds_len,
    ds_new,
    ds_packet_ids,
    ds_values,
};

verus! {

/// The outcome of feeding one decoded value to the stability tracker.
#[derive(Clone, Copy, Debug, PartialEq, Eq, Structural)]
pub enum DataSetStabilityState {
    /// The data set gained a previously-unseen identity; stability evidence
    /// was reset.
    DataSetChanged,
    /// The set is unchanged but not yet trusted; the payload is the current
    /// stability percentage, strictly below 100.
    Stabilizing(i32),
    /// This very call made the set stable.
    Stabilized,
    /// The set was already stable and remains so.
    Stable,
}

/// The abstract state of a tracker: the identities the data set holds (in
/// insertion order), their packet identities, the unchanged-cycle counter,
/// and the stability flag.
pub struct StabilityView {
    pub identities: Seq<Seq<int>>,
    pub packet_ids: Seq<Option<(u8, u16, u16, u16)>>,
    pub counter: int,
    pub is_stable: bool,
}

/// The state of a freshly created tracker.
pub open spec fn initial_view() -> StabilityView {
    StabilityView {
        identities: Seq::<Seq<int>>::empty(),
        packet_ids: Seq::<Option<(u8, u16, u16, u16)>>::empty(),
        counter: 0,
        is_stable: false,
    }
}

/// The stability percentage of an abstract state: 100 once stable, otherwise
/// the counter measured against three unchanged cycles per tracked identity
/// (truncating division), and 0 while the set is empty.
pub open spec fn stability_percent_of(v: StabilityView) -> int {
    if v.is_stable {
        100
    } else if v.identities.len() > 0 {
        v.counter * 100 / (3 * v.identities.len() as int)
    } else {
        0
    }
}

/// Well-formedness of an abstract state: the two content sequences run in
/// parallel, identities are unique, and the counter is either reset or still
/// below the stability threshold whenever the set is not stable.
pub open spec fn stability_wf(v: StabilityView) -> bool {
    &&& v.packet_ids.len() == v.identities.len()
    &&& v.identities.no_duplicates()
    &&& v.counter >= 0
    &&& (!v.is_stable ==> v.counter == 0 || v.counter < 3 * v.identities.len() as int)
    &&& (v.is_stable ==> v.identities.len() > 0)
}

/// The transition function of the tracker: one incoming value, given by its
/// identity and its packet identity, takes a state to a successor state and
/// an emitted event.
pub open spec fn stability_step(
    v: StabilityView,
    identity: Seq<int>,
    packet_id: Option<(u8, u16, u16, u16)>,
) -> (StabilityView, DataSetStabilityState) {
    if !v.identities.contains(identity) {
        (
            StabilityView {
                identities: v.identities.push(identity),
                packet_ids: v.packet_ids.push(packet_id),
                counter: 0,
                is_stable: false,
            },
            DataSetStabilityState::DataSetChanged,
        )
    } else if v.is_stable {
        (v, DataSetStabilityState::Stable)
    } else {
        let stepped = StabilityView { counter: v.counter + 1, ..v };
        let percent = stability_percent_of(stepped);
        if percent >= 100 {
            (StabilityView { is_stable: true, ..stepped }, DataSetStabilityState::Stabilized)
        } else {
            (stepped, DataSetStabilityState::Stabilizing(percent as i32))
        }
    }
}

/// The state reached by feeding a whole sequence of values, oldest first.
pub open spec fn stability_run(
    v: StabilityView,
    inputs: Seq<(Seq<int>, Option<(u8, u16, u16, u16)>)>,
) -> StabilityView
    decreases inputs.len(),
{
    if inputs.len() == 0 {
        v
    } else {
        stability_step(
            stability_run(v, inputs.drop_last()),
            inputs.last().0,
            inputs.last().1,
        ).0
    }
}

/// Tracks how stable the current data set is.
pub struct DataSetStability {
    data_set: resol_vbus::DataSet,
    counter: u128,
    is_stable: bool,
}

impl View for DataSetStability {
    type V = StabilityView;

    closed spec fn view(&self) -> StabilityView {
        StabilityView {
            identities: ds_identities(self.data_set),
            packet_ids: ds_packet_ids(self.data_set),
            counter: self.counter as int,
            is_stable: self.is_stable,
        }
    }
}

impl DataSetStability {
    pub open spec fn wf(&self) -> bool {
        stability_wf(self@)
    }

    /// The values the tracked data set holds, in insertion order: the most
    /// recently observed value per tracked identity.
    pub closed spec fn spec_values(&self) -> Seq<resol_vbus::Data> {
        ds_values(self.data_set)
    }

    pub fn new() -> (r: DataSetStability)
        ensures
            r@ == initial_view(),
            r.spec_values() == Seq::<resol_vbus::Data>::empty(),
            r.wf(),
    {
        let r = DataSetStability { data_set: ds_new(), counter: 0, is_stable: false };
        r
    }

    /// The tracked data set.
    pub fn data_set(&self) -> (r: &resol_vbus::DataSet)
        ensures
            ds_values(*r) == self.spec_values(),
            ds_identities(*r) == self@.identities,
            ds_packet_ids(*r) == self@.packet_ids,
    {
        &self.data_set
    }

    /// The values of the tracked data set, in insertion order: for each
    /// tracked identity, the most recently observed value.
    pub fn as_data_slice(&self) -> (r: &[resol_vbus::Data])
        ensures
            r@ == self.spec_values(),
            r@.len() == self@.identities.len(),
            forall|i: int|
                0 <= i < r@.len() ==> #[trigger] data_identity(r@[i]) == self@.identities[i],
            forall|i: int|
                0 <= i < r@.len() ==> #[trigger] data_packet_id(r@[i]) == self@.packet_ids[i],
    {
        ds_as_data_slice(&self.data_set)
    }

    pub fn is_stable(&self) -> (r: bool)
        ensures
            r == self@.is_stable,
    {
        self.is_stable
    }

    /// The current stability percentage, between 0 and 100.
    pub fn stability_percent(&self) -> (r: i32)
        requires
            self@.is_stable || self@.counter <= 3 * self@.identities.len() as int,
        ensures
            r as int == stability_percent_of(self@),
            0 <= r <= 100,
    {
        let len = ds_len(&self.data_set);
        let count: u128 = (len as u128) * 3;
        if self.is_stable {
            100
        } else if count > 0 {
            let percent = self.counter * 100 / count;
            proof {
                lemma_div_is_ordered(
                    self@.counter * 100,
                    (3 * self@.identities.len() as int) * 100,
                    3 * self@.identities.len() as int,
                );
                lemma_div_by_multiple(100, 3 * self@.identities.len() as int);
            }
            percent as i32
        } else {
            0
        }
    }

    /// Insert the value into the data set — the arriving value replaces the
    /// stored value with the same identity in place, or is appended when the
    /// identity is new — and advance the stability state machine.
    pub fn add_data(&mut self, data: resol_vbus::Data) -> (r: DataSetStabilityState)
        requires
            old(self).wf(),
        ensures
            final(self).wf(),
            final(self)@ == stability_step(
                old(self)@,
                data_identity(data),
                data_packet_id(data),
            ).0,
            r == stability_step(old(self)@, data_identity(data), data_packet_id(data)).1,
            old(self)@.identities.contains(data_identity(data))
                ==> (old(self)@.identities.index_of_first(data_identity(data)) matches Some(i)
                && final(self).spec_values() == old(self).spec_values().update(i, data)),
            !old(self)@.identities.contains(data_identity(data)) ==> final(self).spec_values()
                == old(self).spec_values().push(data),
    {
        let old_len = ds_len(&self.data_set);
        proof {
            if ds_identities(self.data_set).contains(data_identity(data)) {
                let witness = choose|i: int|
                    0 <= i < ds_identities(self.data_set).len()
                        && ds_identities(self.data_set)[i] == data_identity(data);
                assert(ds_identities(self.data_set).len() > 0);
            }
        }
        ds_add(&mut self.data_set, data);
        self.handle_added_data(old_len)
    }

    /// Advance the counter-based state machine after one insertion, given
    /// the length the data set had before it.
    fn handle_added_data(&mut self, old_len: usize) -> (r: DataSetStabilityState)
        requires
            old(self)@.packet_ids.len() == old(self)@.identities.len(),
            old(self)@.identities.no_duplicates(),
            old(self)@.identities.len() == old_len as nat || old(self)@.identities.len() == old_len
                as nat + 1,
            old(self)@.identities.len() == old_len as nat ==> old_len > 0,
            old(self)@.identities.len() == old_len as nat && !old(self)@.is_stable
                ==> old(self)@.counter == 0 || old(self)@.counter < 3 * old_len as int,
        ensures
            final(self)@.identities == old(self)@.identities,
            final(self)@.packet_ids == old(self)@.packet_ids,
            final(self).spec_values() == old(self).spec_values(),
            stability_wf(final(self)@),
            old(self)@.identities.len() != old_len as nat ==> {
                &&& final(self)@.counter == 0
                &&& !final(self)@.is_stable
                &&& r == DataSetStabilityState::DataSetChanged
            },
            old(self)@.identities.len() == old_len as nat && old(self)@.is_stable ==> {
                &&& final(self)@ == old(self)@
                &&& r == DataSetStabilityState::Stable
            },
            old(self)@.identities.len() == old_len as nat && !old(self)@.is_stable ==> {
                let stepped = StabilityView { counter: old(self)@.counter + 1, ..old(self)@ };
                let percent = stability_percent_of(stepped);
                &&& final(self)@.counter == old(self)@.counter + 1
                &&& if percent >= 100 {
                    final(self)@ == (StabilityView { is_stable: true, ..stepped })
                        && r == DataSetStabilityState::Stabilized
                } else {
                    final(self)@ == stepped && r == (DataSetStabilityState::Stabilizing(
                        percent as i32,
                    ))
                }
            },
    {
        let len = ds_len(&self.data_set);
        if len != old_len {
            self.counter = 0;
            self.is_stable = false;
            DataSetStabilityState::DataSetChanged
        } else if self.is_stable {
            DataSetStabilityState::Stable
        } else {
            self.counter = self.counter + 1;
            let percent = self.stability_percent();
            if percent >= 100 {
                self.is_stable = true;
                proof {
                    lemma_percent_at_most_100_before_threshold(self@.counter, len as int);
                }
                DataSetStabilityState::Stabilized
            } else {
                proof {
                    lemma_percent_below_100_means_below_threshold(self@.counter, len as int);
                }
                DataSetStabilityState::Stabilizing(percent)
            }
        }
    }
}

/// Law: a value whose identity the data set already holds keeps a stable
/// tracker stable, changes nothing, and is reported as `Stable`.
pub proof fn lemma_stable_persists(
    v: StabilityView,
    identity: Seq<int>,
    packet_id: Option<(u8, u16, u16, u16)>,
)
    requires
        v.is_stable,
        v.identities.contains(identity),
    ensures
        stability_step(v, identity, packet_id).0 == v,
        stability_step(v, identity, packet_id).0.is_stable,
        stability_step(v, identity, packet_id).1 == DataSetStabilityState::Stable,
{
}

/// Law: a previously-unseen identity resets all stability evidence: the
/// counter returns to zero, the tracker is no longer stable, the identity is
/// appended to the data set, and `DataSetChanged` is reported.
pub proof fn lemma_new_identity_resets(
    v: StabilityView,
    identity: Seq<int>,
    packet_id: Option<(u8, u16, u16, u16)>,
)
    requires
        !v.identities.contains(identity),
    ensures
        stability_step(v, identity, packet_id).0.counter == 0,
        !stability_step(v, identity, packet_id).0.is_stable,
        stability_step(v, identity, packet_id).0.identities == v.identities.push(identity),
        stability_step(v, identity, packet_id).1 == DataSetStabilityState::DataSetChanged,
{
}

/// Law: the data set never shrinks: a step keeps every tracked identity in
/// place, and grows the set exactly when a previously-unseen identity
/// arrives.
pub proof fn lemma_data_set_never_shrinks(
    v: StabilityView,
    identity: Seq<int>,
    packet_id: Option<(u8, u16, u16, u16)>,
)
    ensures
        stability_step(v, identity, packet_id).0.identities.len() >= v.identities.len(),
        forall|i: int|
            0 <= i < v.identities.len() ==> stability_step(
                v,
                identity,
                packet_id,
            ).0.identities[i] == v.identities[i],
        stability_step(v, identity, packet_id).0.identities.len() > v.identities.len()
            <==> !v.identities.contains(identity),
{
}

/// Law: between two `DataSetChanged` events the stability percentage never
/// decreases; a `Stabilizing` event carries a percentage strictly below 100;
/// and the percentage reaches exactly 100 on the very call that reports
/// `Stabilized`.
pub proof fn lemma_percent_monotonic(
    v: StabilityView,
    identity: Seq<int>,
    packet_id: Option<(u8, u16, u16, u16)>,
)
    requires
        stability_wf(v),
        v.identities.contains(identity),
    ensures
        stability_percent_of(stability_step(v, identity, packet_id).0) >= stability_percent_of(v),
        stability_step(v, identity, packet_id).1 == DataSetStabilityState::Stabilized
            ==> stability_percent_of(stability_step(v, identity, packet_id).0) == 100
            && stability_percent_of(v) < 100,
        stability_step(v, identity, packet_id).1 matches DataSetStabilityState::Stabilizing(p)
            ==> 0 <= p < 100 && p as int == stability_percent_of(
            stability_step(v, identity, packet_id).0,
        ),
{
    let len = v.identities.len() as int;
    assert(len > 0);
    if !v.is_stable {
        let stepped = StabilityView { counter: v.counter + 1, ..v };
        lemma_div_is_ordered(v.counter * 100, (v.counter + 1) * 100, 3 * len);
        vstd::arithmetic::div_mod::lemma_div_pos_is_pos(v.counter * 100, 3 * len);
        if v.counter == 0 {
            vstd::arithmetic::div_mod::lemma_div_of0(3 * len);
        } else {
            lemma_percent_below_100_means_below_threshold_converse(v.counter, len);
        }
    }
}

/// If the counter is below the threshold, the percentage reading is below
/// 100.
proof fn lemma_percent_below_100_means_below_threshold_converse(counter: int, len: int)
    requires
        len > 0,
        counter >= 0,
        counter < 3 * len,
    ensures
        counter * 100 / (3 * len) < 100,
{
    if counter * 100 / (3 * len) >= 100 {
        lemma_percent_at_most_100_before_threshold(counter, len);
    }
}

/// Law: starting from a fresh tracker, feeding values with pairwise distinct
/// identities grows the data set to one slot per identity, and every single
/// one of those additions reports `DataSetChanged`.
pub proof fn lemma_distinct_identities_all_change(
    v: StabilityView,
    inputs: Seq<(Seq<int>, Option<(u8, u16, u16, u16)>)>,
)
    requires
        v.identities.len() == 0,
        forall|i: int, j: int| 0 <= i < j < inputs.len() ==> inputs[i].0 != inputs[j].0,
    ensures
        stability_run(v, inputs).identities.len() == inputs.len(),
        forall|k: int|
            0 <= k < inputs.len() ==> stability_step(
                stability_run(v, inputs.take(k)),
                #[trigger] inputs[k].0,
                inputs[k].1,
            ).1 == DataSetStabilityState::DataSetChanged,
{
    lemma_run_appends_unseen_identities(v, inputs);
    assert forall|k: int| 0 <= k < inputs.len() implies stability_step(
        stability_run(v, inputs.take(k)),
        #[trigger] inputs[k].0,
        inputs[k].1,
    ).1 == DataSetStabilityState::DataSetChanged by {
        let prefix = inputs.take(k);
        lemma_run_appends_unseen_identities(v, prefix);
        let reached = stability_run(v, prefix);
        assert forall|i: int| 0 <= i < reached.identities.len() implies reached.identities[i]
            != inputs[k].0 by {
            assert(reached.identities[i] == prefix[i].0);
            assert(prefix[i] == inputs[i]);
        }
        assert(!reached.identities.contains(inputs[k].0));
    }
}

/// Helper for the law above: when no incoming identity is already tracked
/// and the incoming identities are pairwise distinct, a run appends exactly
/// the incoming identities, in order.
proof fn lemma_run_appends_unseen_identities(
    v: StabilityView,
    inputs: Seq<(Seq<int>, Option<(u8, u16, u16, u16)>)>,
)
    requires
        forall|k: int| 0 <= k < inputs.len() ==> !v.identities.contains(#[trigger] inputs[k].0),
        forall|i: int, j: int| 0 <= i < j < inputs.len() ==> inputs[i].0 != inputs[j].0,
    ensures
        stability_run(v, inputs).identities.len() == v.identities.len() + inputs.len(),
        forall|i: int|
            0 <= i < v.identities.len() ==> #[trigger] stability_run(v, inputs).identities[i]
                == v.identities[i],
        forall|k: int|
            0 <= k < inputs.len() ==> stability_run(v, inputs).identities[v.identities.len() + k]
                == #[trigger] inputs[k].0,
    decreases inputs.len(),
{
    if inputs.len() > 0 {
        let shorter = inputs.drop_last();
        lemma_run_appends_unseen_identities(v, shorter);
        let reached = stability_run(v, shorter);
        let last = inputs.last();
        assert forall|i: int| 0 <= i < reached.identities.len() implies reached.identities[i]
            != last.0 by {
            if i < v.identities.len() {
                assert(v.identities[i] == reached.identities[i]);
                assert(v.identities.contains(reached.identities[i]));
                assert(inputs[inputs.len() - 1].0 == last.0);
            } else {
                let k = i - v.identities.len();
                assert(reached.identities[i] == shorter[k].0);
                assert(shorter[k] == inputs[k]);
                assert(inputs[inputs.len() - 1].0 == last.0);
            }
        }
        assert(!reached.identities.contains(last.0));
        assert(stability_run(v, inputs).identities == reached.identities.push(last.0));
        assert forall|k: int| 0 <= k < inputs.len() implies stability_run(
            v,
            inputs,
        ).identities[v.identities.len() + k] == #[trigger] inputs[k].0 by {
            if k < inputs.len() - 1 {
                assert(reached.identities[v.identities.len() + k] == shorter[k].0);
                assert(shorter[k] == inputs[k]);
            } else {
                assert(inputs[inputs.len() - 1].0 == last.0);
            }
        }
    }
}

/// If the percentage reading reached 100, the counter reached the threshold.
proof fn lemma_percent_at_most_100_before_threshold(counter: int, len: int)
    requires
        len > 0,
        counter >= 0,
        counter * 100 / (3 * len) >= 100,
    ensures
        counter >= 3 * len,
{
    if counter < 3 * len {
        let d = 3 * len;
        let x = d * 100 - 100;
        lemma_div_is_ordered(counter * 100, x, d);
        lemma_fundamental_div_mod(x, d);
        lemma_mod_bound(x, d);
        let q = x / d;
        let r = x % d;
        assert(q < 100) by (nonlinear_arith)
            requires
                d > 0,
                d * q + r == x,
                0 <= r < d,
                x == d * 100 - 100,
        ;
    }
}

/// If the percentage reading stayed below 100, the counter is still below
/// the threshold.
proof fn lemma_percent_below_100_means_below_threshold(counter: int, len: int)
    requires
        len > 0,
        counter >= 0,
        counter * 100 / (3 * len) < 100,
    ensures
        counter < 3 * len,
{
    if counter >= 3 * len {
        lemma_div_is_ordered((3 * len) * 100, counter * 100, 3 * len);
        lemma_div_by_multiple(100, 3 * len);
    }
}

} // verus!
