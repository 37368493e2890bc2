//! The listener registry and the broadcast plan. Connections that sent
//! `Listen` are remembered here by id; each broadcast cycle pushes one
//! snapshot payload to every one of them and evicts the ones whose write
//! failed. The sockets themselves live with the surrounding binary; this
//! module owns the bookkeeping and its guarantees.
use vstd::prelude::*;
use vstd::string::*;

use crate::json::{spec_json_groups, tuples_to_json};

verus! {

/// An update-trigger signal: which provider's change the broadcast task
/// should fold into the next push.
#[derive(Debug, Clone, Copy, PartialEq, Eq, Structural)]
pub enum ClientMessage {
    UpdateVolume,
    UpdateBrightness,
    UpdateBluetooth,
    UpdateBattery,
    UpdateRam,
    UpdateFanProfile,
    UpdateAll,
}

/// Relies on `uuid::Uuid::new_v4`: a freshly drawn random version-4 uuid,
/// read as its 128-bit value. Nothing is promised of the draw.
#[verifier::external_body]
fn fresh_client_id() -> u128 {
    uuid::Uuid::new_v4().as_u128()
}

/// The ids of the connections currently listening, in registration order,
/// each at most once.
pub struct ClientRegistry {
    ids: Vec<u128>,
}

impl View for ClientRegistry {
    type V = Seq<u128>;

    closed spec fn view(&self) -> Seq<u128> {
        self.ids@
    }
}

impl ClientRegistry {
    /// No id is registered twice.
    pub open spec fn wf(&self) -> bool {
        forall|i: int, j: int| 0 <= i < j < self@.len() ==> self@[i] != self@[j]
    }

    /// An empty registry.
    pub fn new() -> (r: ClientRegistry)
        ensures
            r@ == Seq::<u128>::empty(),
            r.wf(),
    {
        ClientRegistry { ids: Vec::new() }
    }

    /// How many listeners are registered.
    pub fn len(&self) -> (r: usize)
        ensures
            r == self@.len(),
    {
        self.ids.len()
    }

    /// Whether nobody listens; the poller reads this gate and only asks for
    /// snapshots when it is false.
    pub fn is_empty(&self) -> (r: bool)
        ensures
            r == (self@.len() == 0),
    {
        self.ids.len() == 0
    }

    /// Whether `id` is registered.
    pub fn contains(&self, id: u128) -> (r: bool)
        ensures
            r == self@.contains(id),
    {
        let mut i: usize = 0;
        while i < self.ids.len()
            invariant
                i <= self@.len(),
                forall|j: int| 0 <= j < i ==> self@[j] != id,
            decreases self@.len() - i,
        {
            if self.ids[i] == id {
                return true;
            }
            i += 1;
        }
        false
    }

    /// Registers `id`; an id already present is left as it is.
    pub fn insert(&mut self, id: u128)
        requires
            old(self).wf(),
        ensures
            final(self).wf(),
            old(self)@.contains(id) ==> final(self)@ == old(self)@,
            !old(self)@.contains(id) ==> final(self)@ == old(self)@.push(id),
    {
        if !self.contains(id) {
            self.ids.push(id);
        }
    }

    /// Draws a fresh random id and registers it; the connection's socket is
    /// from then on the broadcast task's to write. In the vanishing case
    /// that the drawn id is already taken nothing changes and the caller
    /// draws again.
    pub fn register(&mut self) -> (r: Option<u128>)
        requires
            old(self).wf(),
        ensures
            final(self).wf(),
            r matches Some(id) ==> (!old(self)@.contains(id) && final(self)@ == old(
                self,
            )@.push(id)),
            r is None ==> final(self)@ == old(self)@,
    {
        let id = fresh_client_id();
        if !self.contains(id) {
            self.ids.push(id);
            Some(id)
        } else {
            None
        }
    }

    /// Removes every id in `failed`, keeping the others in order; this is
    /// the eviction step at the end of a broadcast cycle, run after the
    /// iteration that collected the failures.
    pub fn remove_ids(&mut self, failed: &Vec<u128>)
        requires
            old(self).wf(),
        ensures
            final(self).wf(),
            final(self)@ == old(self)@.filter(|x: u128| !failed@.contains(x)),
            forall|x: u128|
                final(self)@.contains(x) <==> (old(self)@.contains(x) && !failed@.contains(x)),
    {
        let ghost pred = |x: u128| !failed@.contains(x);
        let ghost orig = self.ids@;
        proof {
            assert(orig == old(self)@);
        }
        let mut kept: Vec<u128> = Vec::new();
        let mut i: usize = 0;
        while i < self.ids.len()
            invariant
                i <= orig.len(),
                self.ids@ == orig,
                orig == old(self)@,
                old(self).wf(),
                kept@ == orig.take(i as int).filter(pred),
                pred == (|x: u128| !failed@.contains(x)),
            decreases orig.len() - i,
        {
            let id = self.ids[i];
            let mut hit = false;
            let mut j: usize = 0;
            while j < failed.len()
                invariant
                    j <= failed@.len(),
                    hit == exists|k: int| 0 <= k < j && failed@[k] == id,
                decreases failed@.len() - j,
            {
                if failed[j] == id {
                    hit = true;
                }
                j += 1;
            }
            proof {
                assert(hit == failed@.contains(id));
                reveal_with_fuel(Seq::filter, 1);
                assert(orig.take(i + 1).drop_last() =~= orig.take(i as int));
                assert(orig.take(i + 1).last() == orig[i as int]);
                assert(orig.take(i + 1).filter(pred) == if pred(orig[i as int]) {
                    orig.take(i as int).filter(pred).push(orig[i as int])
                } else {
                    orig.take(i as int).filter(pred)
                });
            }
            if !hit {
                kept.push(id);
            }
            i += 1;
        }
        proof {
            assert(orig.take(orig.len() as int) =~= orig);
        }
        self.ids = kept;
        proof {
            orig.filter_lemma(pred);
            lemma_filter_subset(orig, pred);
            assert forall|x: u128|
                self@.contains(x) <==> (orig.contains(x) && !failed@.contains(x)) by {
                if self@.contains(x) {
                    let k = choose|k: int| 0 <= k < self@.len() && self@[k] == x;
                    assert(pred(self@[k]));
                    assert(orig.filter(pred).contains(x));
                }
                if orig.contains(x) && !failed@.contains(x) {
                    let k = choose|k: int| 0 <= k < orig.len() && orig[k] == x;
                    assert(pred(orig[k]));
                    assert(orig.filter(pred).contains(orig[k]));
                }
            }
            assert(self.wf()) by {
                assert forall|a: int, b: int| 0 <= a < b < self@.len() implies self@[a]
                    != self@[b] by {
                    lemma_filter_keeps_distinct(orig, pred, a, b);
                }
            }
        }
    }

    /// The registered ids, in order, for the broadcast iteration.
    pub fn ids(&self) -> (r: Vec<u128>)
        ensures
            r@ == self@,
    {
        self.ids.clone()
    }
}

/// Every element of a filtered sequence occurs in the sequence.
proof fn lemma_filter_subset(s: Seq<u128>, pred: spec_fn(u128) -> bool)
    ensures
        forall|x: u128| #[trigger] s.filter(pred).contains(x) ==> s.contains(x),
    decreases s.len(),
{
    reveal_with_fuel(Seq::filter, 1);
    if s.len() > 0 {
        let rest = s.drop_last();
        lemma_filter_subset(rest, pred);
        assert forall|x: u128| #[trigger] s.filter(pred).contains(x) implies s.contains(x) by {
            let k = choose|k: int| 0 <= k < s.filter(pred).len() && s.filter(pred)[k] == x;
            if pred(s.last()) && k == s.filter(pred).len() - 1 {
                assert(s[s.len() - 1] == x);
            } else {
                assert(rest.filter(pred)[k] == x);
                assert(rest.filter(pred).contains(x));
                let m = choose|m: int| 0 <= m < rest.len() && rest[m] == x;
                assert(s[m] == x);
            }
        }
    }
}

/// A filtered sequence of pairwise-distinct elements stays pairwise distinct.
proof fn lemma_filter_keeps_distinct(s: Seq<u128>, pred: spec_fn(u128) -> bool, a: int, b: int)
    requires
        forall|i: int, j: int| 0 <= i < j < s.len() ==> s[i] != s[j],
        0 <= a < b < s.filter(pred).len(),
    ensures
        s.filter(pred)[a] != s.filter(pred)[b],
    decreases s.len(),
{
    reveal_with_fuel(Seq::filter, 1);
    if s.len() > 0 {
        let rest = s.drop_last();
        assert(forall|i: int, j: int| 0 <= i < j < rest.len() ==> rest[i] != rest[j]);
        if pred(s.last()) {
            if b < s.filter(pred).len() - 1 {
                lemma_filter_keeps_distinct(rest, pred, a, b);
            } else {
                lemma_filter_subset(rest, pred);
                rest.filter_lemma(pred);
                assert(s.filter(pred)[b] == s.last());
                assert(s.filter(pred)[a] == rest.filter(pred)[a]);
                assert(rest.filter(pred).contains(rest.filter(pred)[a]));
                assert(rest.contains(rest.filter(pred)[a]));
                let k = choose|k: int| 0 <= k < rest.len() && rest[k] == rest.filter(pred)[a];
                assert(s[k] == rest[k]);
                assert(s[k] != s[s.len() - 1]);
                assert(s.last() == s[s.len() - 1]);
            }
        } else {
            lemma_filter_keeps_distinct(rest, pred, a, b);
        }
    } else {
        assert(s.filter(pred).len() == 0);
    }
}

/// The payload of one broadcast cycle: the snapshot as one JSON line.
pub fn snapshot_payload(tuples: &Vec<(String, Vec<(String, String)>)>) -> (r: String)
    ensures
        r@ == spec_json_groups(crate::daemon::groups_view(tuples@)) + "\n"@,
{
    let mut r = tuples_to_json(tuples);
    r.append("\n");
    r
}

/// One broadcast cycle's plan: for every registered listener, in
/// registration order, the same payload.
pub fn plan_broadcast(reg: &ClientRegistry, payload: &str) -> (r: Vec<(u128, String)>)
    ensures
        r@.len() == reg@.len(),
        forall|i: int| 0 <= i < r@.len() ==> (#[trigger] r@[i]).0 == reg@[i],
        forall|i: int| 0 <= i < r@.len() ==> (#[trigger] r@[i]).1@ == payload@,
{
    let ids = reg.ids();
    let mut r: Vec<(u128, String)> = Vec::new();
    let mut i: usize = 0;
    while i < ids.len()
        invariant
            i <= ids@.len(),
            ids@ == reg@,
            r@.len() == i,
            forall|j: int| 0 <= j < i ==> (#[trigger] r@[j]).0 == reg@[j],
            forall|j: int| 0 <= j < i ==> (#[trigger] r@[j]).1@ == payload@,
        decreases ids@.len() - i,
    {
        r.push((ids[i], String::from_str(payload)));
        i += 1;
    }
    r
}

/// Law: within one broadcast cycle every two listeners are sent
/// byte-for-byte the same payload.
pub proof fn lemma_broadcast_same_payload(
    reg: &ClientRegistry,
    payload: &str,
    plan: Seq<(u128, String)>,
    i: int,
    j: int,
)
    requires
        plan.len() == reg@.len(),
        forall|k: int| 0 <= k < plan.len() ==> (#[trigger] plan[k]).1@ == payload@,
        0 <= i < plan.len(),
        0 <= j < plan.len(),
    ensures
        plan[i].1@ == plan[j].1@,
{
}

} // verus!
