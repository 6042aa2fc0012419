//! The bounded march of one ray through a distance field.
//!
//! A ray starts at depth zero. At each step the distance field is evaluated
//! at the ray's current depth. If the surface is closer than the minimum
//! distance, the ray has hit it at that depth. Otherwise the ray moves on by
//! the distance found, which cannot carry it through a surface; if that takes
//! it past the far-clip bound, it has missed. A ray that is still under way
//! when the step cap is reached stops where it stands, and its depth counts
//! as the depth of a hit.
//!
//! Evaluating the field and adding up depths is the caller's part. What the
//! caller learns at each step is handed over as a [`Probe`]; this module
//! decides, from the probes alone, when the march is over and how it ended.

use vstd::prelude::*;

verus! {

/// The step cap that the renderer marches with.
pub const MAX_MARCH_STEPS: u64 = 100;

/// What one evaluation of the distance field says about the ray.
#[derive(Clone, Copy, PartialEq, Eq, Structural, Debug)]
pub enum Probe {
    /// The surface is closer than the minimum distance: the ray stays where
    /// it is.
    Surface,
    /// The ray moved on by the distance found and is within the far-clip
    /// bound.
    Advanced,
    /// The ray moved on by the distance found and is past the far-clip bound.
    Escaped,
}

/// How far a march has come.
#[derive(Clone, Copy, PartialEq, Eq, Structural, Debug)]
pub enum Status {
    /// The next probe is awaited.
    Marching,
    /// The ray met the surface.
    Hit,
    /// The step cap was reached with the ray still under way. The depth
    /// reached counts as the depth of a hit.
    Exhausted,
    /// The ray left the far-clip bound.
    Miss,
}

/// The mathematical state of a march: its step cap, the number of probes it
/// has used, and how far it has come.
pub struct MarchState {
    pub cap: nat,
    pub taken: nat,
    pub status: Status,
}

impl MarchState {
    /// The state before the first probe. With a cap of zero there is no
    /// first probe.
    pub open spec fn start(cap: nat) -> MarchState {
        MarchState {
            cap,
            taken: 0,
            status: if cap == 0 {
                Status::Exhausted
            } else {
                Status::Marching
            },
        }
    }

    /// Whether the march is over.
    pub open spec fn finished(self) -> bool {
        self.status != Status::Marching
    }

    /// The state after one more probe. A march that is over stays as it is.
    pub open spec fn step(self, probe: Probe) -> MarchState {
        if self.finished() {
            self
        } else {
            MarchState {
                cap: self.cap,
                taken: self.taken + 1,
                status: match probe {
                    Probe::Surface => Status::Hit,
                    Probe::Escaped => Status::Miss,
                    Probe::Advanced => if self.taken + 1 >= self.cap {
                        Status::Exhausted
                    } else {
                        Status::Marching
                    },
                },
            }
        }
    }

    /// The state that the probes lead to, taken in order from the start.
    pub open spec fn run(cap: nat, probes: Seq<Probe>) -> MarchState
        decreases probes.len(),
    {
        if probes.len() == 0 {
            Self::start(cap)
        } else {
            Self::run(cap, probes.drop_last()).step(probes.last())
        }
    }

    /// What holds of every state that probes can lead to: a march uses no
    /// more probes than its cap allows, it is under way only below the cap,
    /// and it is exhausted only at the cap.
    pub open spec fn inv(self) -> bool {
        &&& self.taken <= self.cap
        &&& self.status == Status::Marching ==> self.taken < self.cap
        &&& self.status == Status::Exhausted ==> self.taken == self.cap
        &&& (self.status == Status::Hit || self.status == Status::Miss) ==> self.taken >= 1
    }
}

/// Whether each of the first `n` probes found the ray free to move on within
/// the far-clip bound.
pub open spec fn all_advanced(probes: Seq<Probe>, n: int) -> bool {
    forall|i: int| 0 <= i < n ==> probes[i] == Probe::Advanced
}

/// Whether probe `k` is the first that did not find the ray free to move on,
/// and is `what`.
pub open spec fn decided_at(probes: Seq<Probe>, k: int, what: Probe) -> bool {
    &&& 0 <= k < probes.len()
    &&& probes[k] == what
    &&& all_advanced(probes, k)
}

/// A march under way: the state machine that is fed one probe per step.
#[derive(Clone, Copy, Debug)]
pub struct March {
    cap: u64,
    taken: u64,
    status: Status,
}

impl View for March {
    type V = MarchState;

    closed spec fn view(&self) -> MarchState {
        MarchState { cap: self.cap as nat, taken: self.taken as nat, status: self.status }
    }
}

impl March {
    #[verifier::type_invariant]
    spec fn well_formed(self) -> bool {
        self@.inv()
    }

    /// A march that has used no probe yet and may use up to `cap`.
    pub fn begin(cap: u64) -> (march: March)
        ensures
            march@ == MarchState::start(cap as nat),
    {
        March {
            cap,
            taken: 0,
            status: if cap == 0 {
                Status::Exhausted
            } else {
                Status::Marching
            },
        }
    }

    /// The march after one more probe. A march that is over ignores it.
    pub fn observe(self, probe: Probe) -> (next: March)
        ensures
            next@ == self@.step(probe),
    {
        proof {
            use_type_invariant(&self);
        }
        match self.status {
            Status::Marching => {
                let taken: u64 = self.taken + 1;
                let status = match probe {
                    Probe::Surface => Status::Hit,
                    Probe::Escaped => Status::Miss,
                    Probe::Advanced => if taken >= self.cap {
                        Status::Exhausted
                    } else {
                        Status::Marching
                    },
                };
                March { cap: self.cap, taken, status }
            },
            _ => self,
        }
    }

    /// How far the march has come.
    pub fn status(&self) -> (status: Status)
        ensures
            status == self@.status,
    {
        self.status
    }

    /// Whether the next probe is awaited.
    pub fn is_marching(&self) -> (marching: bool)
        ensures
            marching == !self@.finished(),
    {
        match self.status {
            Status::Marching => true,
            _ => false,
        }
    }

    /// The number of probes used so far. It never exceeds the cap.
    pub fn taken(&self) -> (taken: u64)
        ensures
            taken == self@.taken,
            taken <= self@.cap,
    {
        proof {
            use_type_invariant(self);
        }
        self.taken
    }

    /// The step cap.
    pub fn cap(&self) -> (cap: u64)
        ensures
            cap == self@.cap,
    {
        self.cap
    }
}

/// Whether `probes` and `depths` record a march from `origin` with `sample`:
/// each probe, and the depth after it, is what `sample` may answer at the
/// depth before it.
pub open spec fn is_trace<D, F: Fn(D) -> (Probe, D)>(
    sample: F,
    origin: D,
    probes: Seq<Probe>,
    depths: Seq<D>,
) -> bool {
    &&& depths.len() == probes.len() + 1
    &&& depths[0] == origin
    &&& forall|i: int|
        0 <= i < probes.len() ==> call_ensures(
            sample,
            (depths[i],),
            (#[trigger] probes[i], depths[i + 1]),
        )
}

/// Marches a ray from `origin` until the march is over, and returns the
/// finished march with the depth at which the ray stands.
///
/// `sample` evaluates the distance field at a depth. It answers with the
/// probe and with the depth of the ray after it: the same depth for
/// `Probe::Surface`, the depth moved on by the distance found otherwise.
/// It is asked once per step, each time at the depth it answered last, and
/// never after the march is over.
pub fn trace<D, F: Fn(D) -> (Probe, D)>(cap: u64, origin: D, sample: F) -> (end: (March, D))
    requires
        forall|depth: D| call_requires(sample, (depth,)),
    ensures
        end.0@.finished(),
        exists|probes: Seq<Probe>, depths: Seq<D>|
            {
                &&& #[trigger] is_trace(sample, origin, probes, depths)
                &&& probes.len() == end.0@.taken
                &&& end.0@ == MarchState::run(cap as nat, probes)
                &&& end.1 == depths.last()
            },
{
    let mut march = March::begin(cap);
    let mut depth = origin;
    let ghost mut probes: Seq<Probe> = Seq::empty();
    let ghost mut depths: Seq<D> = seq![origin];
    while march.is_marching()
        invariant
            forall|depth: D| call_requires(sample, (depth,)),
            is_trace(sample, origin, probes, depths),
            probes.len() == march@.taken,
            march@ == MarchState::run(cap as nat, probes),
            march@.inv(),
            depth == depths.last(),
        decreases march@.cap - march@.taken,
    {
        let (probe, next) = sample(depth);
        let ghost before = probes;
        proof {
            probes = probes.push(probe);
            depths = depths.push(next);
            assert(probes.drop_last() =~= before);
        }
        march = march.observe(probe);
        depth = next;
        proof {
            use_type_invariant(&march);
        }
    }
    (march, depth)
}

/// Whatever the probes are, a march uses no more of them than its cap
/// allows, and no more than there are.
pub proof fn lemma_march_is_bounded(cap: nat, probes: Seq<Probe>)
    ensures
        MarchState::run(cap, probes).inv(),
        MarchState::run(cap, probes).cap == cap,
        MarchState::run(cap, probes).taken <= probes.len(),
        !MarchState::run(cap, probes).finished() ==> MarchState::run(cap, probes).taken
            == probes.len(),
        probes.len() >= cap ==> MarchState::run(cap, probes).finished(),
    decreases probes.len(),
{
    if probes.len() > 0 {
        lemma_march_is_bounded(cap, probes.drop_last());
    }
}

/// How a march ends is decided by the first probe, among those that the cap
/// allows, that did not find the ray free to move on: the ray has hit if
/// that probe found the surface, and missed if it found the ray past the
/// far-clip bound. With no such probe the march is exhausted once the cap is
/// reached, and under way before. The probes used are those up to the
/// deciding one.
pub proof fn lemma_march_verdict(cap: nat, probes: Seq<Probe>)
    ensures
        MarchState::run(cap, probes).status == Status::Hit <==> exists|k: int|
            k < cap && #[trigger] decided_at(probes, k, Probe::Surface),
        MarchState::run(cap, probes).status == Status::Miss <==> exists|k: int|
            k < cap && #[trigger] decided_at(probes, k, Probe::Escaped),
        MarchState::run(cap, probes).status == Status::Exhausted <==> probes.len() >= cap
            && all_advanced(probes, cap as int),
        MarchState::run(cap, probes).status == Status::Marching <==> probes.len() < cap
            && all_advanced(probes, probes.len() as int),
        forall|k: int, what: Probe|
            k < cap && what != Probe::Advanced && #[trigger] decided_at(probes, k, what)
                ==> MarchState::run(cap, probes).taken == k + 1,
    decreases probes.len(),
{
    let end = MarchState::run(cap, probes);
    lemma_march_is_bounded(cap, probes);
    if probes.len() > 0 {
        let shorter = probes.drop_last();
        let last = probes.len() - 1;
        let before = MarchState::run(cap, shorter);
        lemma_march_verdict(cap, shorter);
        lemma_march_is_bounded(cap, shorter);
        lemma_prefix_agrees(probes);
        if before.finished() {
            assert(end == before);
            if before.status == Status::Hit {
                let k = choose|k: int| k < cap && decided_at(shorter, k, Probe::Surface);
                assert(decided_at(probes, k, Probe::Surface));
            }
            if before.status == Status::Miss {
                let k = choose|k: int| k < cap && decided_at(shorter, k, Probe::Escaped);
                assert(decided_at(probes, k, Probe::Escaped));
            }
            lemma_first_decision_is_unique(cap, probes, shorter);
        } else {
            assert(all_advanced(shorter, last));
            assert(all_advanced(probes, last));
            assert(before.taken == last);
            lemma_undecided_before(probes, last);
            if probes[last] == Probe::Advanced {
                assert(all_advanced(probes, last + 1));
            } else {
                assert(decided_at(probes, last, probes[last]));
                assert(!all_advanced(probes, last + 1));
            }
        }
    }
}

/// A record and the record without its last probe agree on everything that
/// is said of the probes before the last.
proof fn lemma_prefix_agrees(probes: Seq<Probe>)
    requires
        probes.len() > 0,
    ensures
        forall|n: int|
            n <= probes.len() - 1 ==> (all_advanced(probes, n) <==> all_advanced(
                probes.drop_last(),
                n,
            )),
        forall|k: int, what: Probe|
            k < probes.len() - 1 ==> (decided_at(probes, k, what) <==> decided_at(
                probes.drop_last(),
                k,
                what,
            )),
{
    let shorter = probes.drop_last();
    assert forall|n: int| n <= probes.len() - 1 implies (all_advanced(probes, n)
        <==> all_advanced(shorter, n)) by {
        if all_advanced(probes, n) {
            assert forall|i: int| 0 <= i < n implies shorter[i] == Probe::Advanced by {
                assert(shorter[i] == probes[i]);
            }
        }
        if all_advanced(shorter, n) {
            assert forall|i: int| 0 <= i < n implies probes[i] == Probe::Advanced by {
                assert(shorter[i] == probes[i]);
            }
        }
    }
    assert forall|k: int, what: Probe| k < probes.len() - 1 implies (decided_at(probes, k, what)
        <==> decided_at(shorter, k, what)) by {
        if 0 <= k {
            assert(shorter[k] == probes[k]);
            assert(all_advanced(probes, k) <==> all_advanced(shorter, k));
        }
    }
}

/// Where every probe before `n` found the ray free to move on, no probe
/// before `n` decided anything, and one at `n` or later decides only with
/// what it found itself.
proof fn lemma_undecided_before(probes: Seq<Probe>, n: int)
    requires
        0 <= n,
        all_advanced(probes, n),
    ensures
        forall|k: int, what: Probe|
            what != Probe::Advanced && #[trigger] decided_at(probes, k, what) ==> k >= n,
        forall|k: int, what: Probe|
            n < probes.len() && probes[n] != Probe::Advanced && #[trigger] decided_at(
                probes,
                k,
                what,
            ) && what != Probe::Advanced ==> k == n && what == probes[n],
{
    assert forall|k: int, what: Probe|
        n < probes.len() && probes[n] != Probe::Advanced && #[trigger] decided_at(
            probes,
            k,
            what,
        ) && what != Probe::Advanced implies k == n && what == probes[n] by {
        if k > n {
            assert(probes[n] == Probe::Advanced);
        }
        if k < n {
            assert(probes[k] == Probe::Advanced);
        }
    }
}

/// A march that was over before the last probe: what decided it decides the
/// longer record too, and nothing else does.
proof fn lemma_first_decision_is_unique(cap: nat, probes: Seq<Probe>, shorter: Seq<Probe>)
    requires
        probes.len() > 0,
        shorter == probes.drop_last(),
        MarchState::run(cap, shorter).finished(),
        MarchState::run(cap, shorter).status == Status::Hit <==> exists|k: int|
            k < cap && #[trigger] decided_at(shorter, k, Probe::Surface),
        MarchState::run(cap, shorter).status == Status::Miss <==> exists|k: int|
            k < cap && #[trigger] decided_at(shorter, k, Probe::Escaped),
        MarchState::run(cap, shorter).status == Status::Exhausted <==> shorter.len() >= cap
            && all_advanced(shorter, cap as int),
        forall|k: int, what: Probe|
            k < cap && what != Probe::Advanced && #[trigger] decided_at(shorter, k, what)
                ==> MarchState::run(cap, shorter).taken == k + 1,
        forall|k: int, what: Probe|
            k < probes.len() - 1 ==> (decided_at(probes, k, what) <==> decided_at(
                shorter,
                k,
                what,
            )),
        forall|n: int|
            n <= probes.len() - 1 ==> (all_advanced(probes, n) <==> all_advanced(shorter, n)),
    ensures
        MarchState::run(cap, probes).status == Status::Hit <==> exists|k: int|
            k < cap && #[trigger] decided_at(probes, k, Probe::Surface),
        MarchState::run(cap, probes).status == Status::Miss <==> exists|k: int|
            k < cap && #[trigger] decided_at(probes, k, Probe::Escaped),
        MarchState::run(cap, probes).status == Status::Exhausted <==> probes.len() >= cap
            && all_advanced(probes, cap as int),
        forall|k: int, what: Probe|
            k < cap && what != Probe::Advanced && #[trigger] decided_at(probes, k, what)
                ==> MarchState::run(cap, probes).taken == k + 1,
{
    let last = probes.len() - 1;
    let before = MarchState::run(cap, shorter);
    lemma_march_is_bounded(cap, shorter);
    if before.status == Status::Exhausted {
        assert(all_advanced(probes, cap as int));
        lemma_undecided_before(probes, cap as int);
    } else {
        let what = if before.status == Status::Hit {
            Probe::Surface
        } else {
            Probe::Escaped
        };
        let k = choose|k: int| k < cap && decided_at(shorter, k, what);
        assert(decided_at(probes, k, what));
        assert(all_advanced(probes, k));
        lemma_undecided_before(probes, k);
        assert(!all_advanced(probes, cap as int)) by {
            if all_advanced(probes, cap as int) {
                assert(probes[k] == Probe::Advanced);
            }
        }
    }
}

/// A march that is over stays as it ended, whatever probes follow.
pub proof fn lemma_finished_march_is_final(cap: nat, probes: Seq<Probe>, more: Seq<Probe>)
    requires
        MarchState::run(cap, probes).finished(),
    ensures
        MarchState::run(cap, probes + more) == MarchState::run(cap, probes),
    decreases more.len(),
{
    if more.len() == 0 {
        assert(probes + more =~= probes);
    } else {
        lemma_finished_march_is_final(cap, probes, more.drop_last());
        assert((probes + more).drop_last() =~= probes + more.drop_last());
    }
}

} // verus!
