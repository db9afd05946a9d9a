//! The periodic bucketized persistence controller.
//!
//! Time is divided into fixed-width buckets of `interval` seconds. A flush
//! happens exactly when a stable sample's bucket differs from the bucket of
//! the last persisted timestamp, which guarantees at most one persisted row
//! per bucket. On a flush the controller plans one column update for every
//! binding whose packet identity is present in the stable data set; the
//! surrounding program executes the plan against the store.

use vstd::prelude::*;
use vstd::arithmetic::div_mod::{
    lemma_div_is_ordered,
    lemma_div_nonincreasing,
    lemma_div_pos_is_pos,
    lemma_fundamental_div_mod,
    lemma_mod_bound,
};
use crate::fields::FieldBinding;
use crate::vbus::{data_packet_id, data_packet_ident};

verus! {

/// The time bucket an epoch-second instant falls into, for a bucket width
/// of `interval` seconds: the floor of their quotient.
pub open spec fn bucket_of(timestamp: int, interval: int) -> int
    recommends
        interval > 0,
{
    timestamp / interval
}

/// The quotient of an in-range instant by a positive interval is in range.
proof fn lemma_bucket_in_range(t: int, interval: int)
    requires
        interval > 0,
        i64::MIN <= t <= i64::MAX,
    ensures
        i64::MIN <= t / interval <= i64::MAX,
{
    if t >= 0 {
        lemma_div_pos_is_pos(t, interval);
        lemma_div_nonincreasing(t, interval);
    } else {
        let q = t / interval;
        let r = t % interval;
        lemma_fundamental_div_mod(t, interval);
        lemma_mod_bound(t, interval);
        assert(t <= q <= 0) by (nonlinear_arith)
            requires
                interval > 0,
                t < 0,
                interval * q + r == t,
                0 <= r < interval,
        ;
    }
}

/// Compute the bucket index of an epoch-second timestamp.
pub fn bucket_index(timestamp: i64, interval: i64) -> (r: i64)
    requires
        interval > 0,
    ensures
        r as int == bucket_of(timestamp as int, interval as int),
{
    proof {
        lemma_bucket_in_range(timestamp as int, interval as int);
    }
    let q = timestamp.checked_div_euclid(interval);
    q.unwrap()
}

/// One planned column update: the data set slot the value comes from and
/// the binding whose column receives it.
#[derive(Clone, Copy, Debug, PartialEq, Eq, Structural)]
pub struct FieldUpdate {
    pub data_index: usize,
    pub binding_index: usize,
}

/// A plan as a sequence of (data index, binding index) pairs.
pub open spec fn update_pairs_view(s: Seq<FieldUpdate>) -> Seq<(int, int)> {
    s.map_values(|u: FieldUpdate| (u.data_index as int, u.binding_index as int))
}

/// The planned pairs contributed by one data set slot: one pair per binding
/// whose packet identity equals the slot's, in binding order, considering
/// the first `binding_count` bindings.
pub open spec fn pairs_for_data(
    binding_ids: Seq<(u8, u16, u16, u16)>,
    packet_id: Option<(u8, u16, u16, u16)>,
    data_index: int,
    binding_count: int,
) -> Seq<(int, int)>
    decreases binding_count,
{
    if binding_count <= 0 {
        Seq::<(int, int)>::empty()
    } else {
        pairs_for_data(binding_ids, packet_id, data_index, binding_count - 1) + if packet_id
            == Some(binding_ids[binding_count - 1]) {
            seq![(data_index, binding_count - 1)]
        } else {
            Seq::<(int, int)>::empty()
        }
    }
}

/// The planned pairs of the first `data_count` data set slots, data-major.
pub open spec fn flush_pairs_up_to(
    packet_ids: Seq<Option<(u8, u16, u16, u16)>>,
    binding_ids: Seq<(u8, u16, u16, u16)>,
    data_count: int,
) -> Seq<(int, int)>
    decreases data_count,
{
    if data_count <= 0 {
        Seq::<(int, int)>::empty()
    } else {
        flush_pairs_up_to(packet_ids, binding_ids, data_count - 1) + pairs_for_data(
            binding_ids,
            packet_ids[data_count - 1],
            data_count - 1,
            binding_ids.len() as int,
        )
    }
}

/// All planned pairs of a flush: for every data set slot in order, one pair
/// per binding whose packet identity matches it, in binding order.
pub open spec fn flush_pairs(
    packet_ids: Seq<Option<(u8, u16, u16, u16)>>,
    binding_ids: Seq<(u8, u16, u16, u16)>,
) -> Seq<(int, int)> {
    flush_pairs_up_to(packet_ids, binding_ids, packet_ids.len() as int)
}

/// A slot that is not a packet contributes no pair.
proof fn lemma_pairs_for_data_none(
    binding_ids: Seq<(u8, u16, u16, u16)>,
    data_index: int,
    binding_count: int,
)
    ensures
        pairs_for_data(binding_ids, Option::<(u8, u16, u16, u16)>::None, data_index, binding_count)
            == Seq::<(int, int)>::empty(),
    decreases binding_count,
{
    if binding_count > 0 {
        lemma_pairs_for_data_none(binding_ids, data_index, binding_count - 1);
        assert(pairs_for_data(
            binding_ids,
            Option::<(u8, u16, u16, u16)>::None,
            data_index,
            binding_count,
        ) =~= Seq::<(int, int)>::empty());
    }
}

/// Decide which bindings receive values from which data set slots: for
/// every slot that is a packet, every binding with that packet identity is
/// planned, in data-major order. Slots that are not packets and bindings
/// whose identity is absent are skipped; nothing fails.
pub fn build_flush_plan(
    data_slice: &[resol_vbus::Data],
    bindings: &Vec<FieldBinding>,
) -> (r: Vec<FieldUpdate>)
    ensures
        update_pairs_view(r@) == flush_pairs(
            data_slice@.map_values(|d: resol_vbus::Data| data_packet_id(d)),
            bindings@.map_values(|b: FieldBinding| b.packet_id@),
        ),
        forall|k: int|
            0 <= k < r@.len() ==> #[trigger] r@[k].data_index < data_slice@.len()
                && r@[k].binding_index < bindings@.len(),
{
    let ghost packet_ids = data_slice@.map_values(|d: resol_vbus::Data| data_packet_id(d));
    let ghost binding_ids = bindings@.map_values(|b: FieldBinding| b.packet_id@);
    let mut plan: Vec<FieldUpdate> = Vec::new();
    let mut di: usize = 0;
    while di < data_slice.len()
        invariant
            di <= data_slice@.len(),
            packet_ids == data_slice@.map_values(|d: resol_vbus::Data| data_packet_id(d)),
            binding_ids == bindings@.map_values(|b: FieldBinding| b.packet_id@),
            update_pairs_view(plan@) == flush_pairs_up_to(packet_ids, binding_ids, di as int),
            forall|k: int|
                0 <= k < plan@.len() ==> #[trigger] plan@[k].data_index < data_slice@.len()
                    && plan@[k].binding_index < bindings@.len(),
        decreases data_slice@.len() - di,
    {
        let d = &data_slice[di];
        match data_packet_ident(d) {
            Some(pid) => {
                assert(packet_ids[di as int] == Some(pid@));
                let mut bi: usize = 0;
                while bi < bindings.len()
                    invariant
                        di < data_slice@.len(),
                        bi <= bindings@.len(),
                        packet_ids == data_slice@.map_values(
                            |dd: resol_vbus::Data| data_packet_id(dd),
                        ),
                        binding_ids == bindings@.map_values(|b: FieldBinding| b.packet_id@),
                        packet_ids[di as int] == Some(pid@),
                        update_pairs_view(plan@) == flush_pairs_up_to(
                            packet_ids,
                            binding_ids,
                            di as int,
                        ) + pairs_for_data(binding_ids, packet_ids[di as int], di as int, bi as int),
                        forall|k: int|
                            0 <= k < plan@.len() ==> #[trigger] plan@[k].data_index
                                < data_slice@.len() && plan@[k].binding_index < bindings@.len(),
                    decreases bindings@.len() - bi,
                {
                    let ghost plan_before = plan@;
                    if pid == bindings[bi].packet_id {
                        plan.push(FieldUpdate { data_index: di, binding_index: bi });
                        proof {
                            assert(binding_ids[bi as int] == bindings@[bi as int].packet_id@);
                            assert(update_pairs_view(plan@) =~= update_pairs_view(plan_before)
                                + seq![(di as int, bi as int)]);
                        }
                    } else {
                        proof {
                            assert(binding_ids[bi as int] == bindings@[bi as int].packet_id@);
                            assert(update_pairs_view(plan@) =~= update_pairs_view(plan_before)
                                + Seq::<(int, int)>::empty());
                        }
                    }
                    bi = bi + 1;
                }
                assert(update_pairs_view(plan@) == flush_pairs_up_to(
                    packet_ids,
                    binding_ids,
                    di as int + 1,
                ));
            },
            None => {
                proof {
                    assert(packet_ids[di as int] is None);
                    lemma_pairs_for_data_none(binding_ids, di as int, binding_ids.len() as int);
                    assert(flush_pairs_up_to(packet_ids, binding_ids, di as int) + pairs_for_data(
                        binding_ids,
                        packet_ids[di as int],
                        di as int,
                        binding_ids.len() as int,
                    ) =~= flush_pairs_up_to(packet_ids, binding_ids, di as int));
                }
            },
        }
        di = di + 1;
    }
    proof {
        assert(packet_ids.len() == data_slice@.len());
    }
    plan
}

/// Governs at most one persisted row per time bucket.
pub struct PersistenceController {
    pub interval: i64,
    pub last_timestamp: i64,
}

impl PersistenceController {
    pub open spec fn wf(&self) -> bool {
        self.interval > 0
    }

    /// Create a controller. `last_timestamp` is the newest instant already
    /// persisted, re-derived from the store at startup (or the current time
    /// when the store is empty).
    pub fn new(interval: i64, last_timestamp: i64) -> (r: PersistenceController)
        requires
            interval > 0,
        ensures
            r.interval == interval,
            r.last_timestamp == last_timestamp,
            r.wf(),
    {
        PersistenceController { interval, last_timestamp }
    }

    /// Whether this sample's bucket differs from the last persisted one.
    pub fn should_flush(&self, timestamp: i64) -> (r: bool)
        requires
            self.wf(),
        ensures
            r == (bucket_of(timestamp as int, self.interval as int) != bucket_of(
                self.last_timestamp as int,
                self.interval as int,
            )),
    {
        bucket_index(timestamp, self.interval) != bucket_index(self.last_timestamp, self.interval)
    }

    /// One stable sample arrived. When its bucket differs from the last
    /// persisted one, record its timestamp and return the plan of column
    /// updates for this bucket; otherwise do nothing.
    pub fn on_stable_sample(
        &mut self,
        timestamp: i64,
        data_slice: &[resol_vbus::Data],
        bindings: &Vec<FieldBinding>,
    ) -> (r: Option<Vec<FieldUpdate>>)
        requires
            old(self).wf(),
        ensures
            final(self).wf(),
            final(self).interval == old(self).interval,
            (r is Some) == (bucket_of(timestamp as int, old(self).interval as int) != bucket_of(
                old(self).last_timestamp as int,
                old(self).interval as int,
            )),
            r matches Some(plan) ==> final(self).last_timestamp == timestamp && update_pairs_view(
                plan@,
            ) == flush_pairs(
                data_slice@.map_values(|d: resol_vbus::Data| data_packet_id(d)),
                bindings@.map_values(|b: FieldBinding| b.packet_id@),
            ),
            r is None ==> *final(self) == *old(self),
    {
        if self.should_flush(timestamp) {
            self.last_timestamp = timestamp;
            let plan = build_flush_plan(data_slice, bindings);
            Some(plan)
        } else {
            None
        }
    }
}

/// Law: two flushes never share a bucket, and when time moves forward the
/// bucket strictly increases: a flush at `t1` followed by one at a later
/// `t2` has `bucket_of(t1) < bucket_of(t2)`.
pub proof fn lemma_buckets_strictly_increase(t1: int, t2: int, interval: int)
    requires
        interval > 0,
        t1 < t2,
        bucket_of(t1, interval) != bucket_of(t2, interval),
    ensures
        bucket_of(t1, interval) < bucket_of(t2, interval),
{
    lemma_div_is_ordered(t1, t2, interval);
}

/// Membership in a concatenation.
proof fn lemma_concat_contains(s1: Seq<(int, int)>, s2: Seq<(int, int)>, x: (int, int))
    ensures
        (s1 + s2).contains(x) <==> s1.contains(x) || s2.contains(x),
{
    if (s1 + s2).contains(x) {
        let i = choose|i: int| 0 <= i < (s1 + s2).len() && (s1 + s2)[i] == x;
        if i < s1.len() {
            assert(s1[i] == x);
        } else {
            assert(s2[i - s1.len()] == x);
        }
    }
    if s1.contains(x) {
        let i = choose|i: int| 0 <= i < s1.len() && s1[i] == x;
        assert((s1 + s2)[i] == x);
    }
    if s2.contains(x) {
        let i = choose|i: int| 0 <= i < s2.len() && s2[i] == x;
        assert((s1 + s2)[s1.len() + i] == x);
    }
}

/// Exactly which pairs one slot contributes.
proof fn lemma_pairs_for_data_exact(
    binding_ids: Seq<(u8, u16, u16, u16)>,
    packet_id: Option<(u8, u16, u16, u16)>,
    data_index: int,
    binding_count: int,
    x: (int, int),
)
    requires
        binding_count <= binding_ids.len(),
    ensures
        pairs_for_data(binding_ids, packet_id, data_index, binding_count).contains(x) <==> (x.0
            == data_index && 0 <= x.1 < binding_count && packet_id == Some(binding_ids[x.1])),
    decreases binding_count,
{
    if binding_count > 0 {
        lemma_pairs_for_data_exact(binding_ids, packet_id, data_index, binding_count - 1, x);
        let prefix = pairs_for_data(binding_ids, packet_id, data_index, binding_count - 1);
        let tail = if packet_id == Some(binding_ids[binding_count - 1]) {
            seq![(data_index, binding_count - 1)]
        } else {
            Seq::<(int, int)>::empty()
        };
        lemma_concat_contains(prefix, tail, x);
        if tail.len() > 0 && x == tail[0] {
            assert(tail.contains(x));
        }
    }
}

/// Law: a flush plans the pair (data slot, binding) exactly when that slot
/// holds a packet with the binding's packet identity. In particular a
/// binding whose packet identity is absent from the stable data set is
/// silently skipped, while every binding whose identity is present is still
/// planned.
pub proof fn lemma_flush_pairs_exact(
    packet_ids: Seq<Option<(u8, u16, u16, u16)>>,
    binding_ids: Seq<(u8, u16, u16, u16)>,
    x: (int, int),
)
    ensures
        flush_pairs(packet_ids, binding_ids).contains(x) <==> (0 <= x.0 < packet_ids.len() && 0
            <= x.1 < binding_ids.len() && packet_ids[x.0] == Some(binding_ids[x.1])),
{
    lemma_flush_pairs_up_to_exact(packet_ids, binding_ids, packet_ids.len() as int, x);
}

proof fn lemma_flush_pairs_up_to_exact(
    packet_ids: Seq<Option<(u8, u16, u16, u16)>>,
    binding_ids: Seq<(u8, u16, u16, u16)>,
    data_count: int,
    x: (int, int),
)
    requires
        data_count <= packet_ids.len(),
    ensures
        flush_pairs_up_to(packet_ids, binding_ids, data_count).contains(x) <==> (0 <= x.0
            < data_count && 0 <= x.1 < binding_ids.len() && packet_ids[x.0] == Some(
            binding_ids[x.1],
        )),
    decreases data_count,
{
    if data_count > 0 {
        lemma_flush_pairs_up_to_exact(packet_ids, binding_ids, data_count - 1, x);
        let prefix = flush_pairs_up_to(packet_ids, binding_ids, data_count - 1);
        let tail = pairs_for_data(
            binding_ids,
            packet_ids[data_count - 1],
            data_count - 1,
            binding_ids.len() as int,
        );
        lemma_concat_contains(prefix, tail, x);
        lemma_pairs_for_data_exact(
            binding_ids,
            packet_ids[data_count - 1],
            data_count - 1,
            binding_ids.len() as int,
            x,
        );
    }
}

} // verus!
