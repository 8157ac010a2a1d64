use vstd::prelude::*;
use rand::Rng;
use rand::SeedableRng;

verus! {

/// Relies on rand: `StdRng::from_entropy` seeds the standard generator from
/// the operating system, and `Rng::gen_range(0..n)` draws a value from that
/// half-open range, which is non-empty here. Nothing is assumed about which
/// value comes back beyond its bound.
#[verifier::external_body]
fn random_below(n: usize) -> (r: usize)
    requires
        n >= 1,
    ensures
        r < n,
{
    let mut rng = rand::rngs::StdRng::from_entropy();
    rng.gen_range(0..n)
}

/// The positions, in ascending order, at which `h` holds up to (excluding)
/// position `n`: the shape of the healthy subset after a rebuild.
pub open spec fn healthy_positions(h: Seq<bool>, n: int) -> Seq<usize>
    decreases n,
{
    if n <= 0 {
        Seq::empty()
    } else if h[n - 1] {
        healthy_positions(h, n - 1).push((n - 1) as usize)
    } else {
        healthy_positions(h, n - 1)
    }
}

/// Every rebuilt position lies below `n` and the positions grow strictly,
/// so no position appears twice.
pub proof fn lemma_healthy_positions_wf(h: Seq<bool>, n: int)
    requires
        n <= usize::MAX,
    ensures
        forall|i: int| 0 <= i < healthy_positions(h, n).len() ==> (#[trigger] healthy_positions(
            h,
            n,
        )[i]) < n,
        forall|i: int, j: int|
            0 <= i < j < healthy_positions(h, n).len() ==> healthy_positions(h, n)[i]
                < healthy_positions(h, n)[j],
    decreases n,
{
    if n > 0 {
        lemma_healthy_positions_wf(h, n - 1);
        let s0 = healthy_positions(h, n - 1);
        let s = healthy_positions(h, n);
        if h[n - 1] {
            assert forall|i: int| 0 <= i < s.len() implies (#[trigger] s[i]) < n by {
                if i < s0.len() {
                    assert(s[i] == s0[i]);
                } else {
                    assert(s[i] == (n - 1) as usize);
                }
            }
            assert forall|i: int, j: int| 0 <= i < j < s.len() implies s[i] < s[j] by {
                if j < s0.len() {
                    assert(s[i] == s0[i] && s[j] == s0[j]);
                } else {
                    assert(s[i] == s0[i] && s[j] == (n - 1) as usize);
                }
            }
        }
    }
}

/// A position marked healthy is among the rebuilt positions: a single
/// healthy upstream is enough for the subset to be inhabited.
pub proof fn lemma_healthy_position_present(h: Seq<bool>, n: int, k: int)
    requires
        0 <= k < n <= usize::MAX,
        h[k],
    ensures
        healthy_positions(h, n).contains(k as usize),
    decreases n,
{
    if k == n - 1 {
        let s = healthy_positions(h, n);
        assert(s[s.len() - 1] == k as usize);
    } else {
        lemma_healthy_position_present(h, n - 1, k);
        let s = healthy_positions(h, n - 1);
        let i = choose|i: int| 0 <= i < s.len() && s[i] == k as usize;
        assert(healthy_positions(h, n)[i] == k as usize);
    }
}

/// Liveness of recovery: as soon as one probe cycle finds any upstream
/// healthy, the rebuilt subset is inhabited, so the next dial has a
/// candidate and new sessions can be served again.
pub proof fn lemma_recovery_after_rebuild(h: Seq<bool>, k: int)
    requires
        0 <= k < h.len() <= usize::MAX,
        h[k],
    ensures
        healthy_positions(h, h.len() as int).len() > 0,
{
    lemma_healthy_position_present(h, h.len() as int, k);
}

/// The configured upstream addresses together with the subset of them
/// currently believed healthy. The subset is kept as positions into the
/// configured list, so each configured entry can be present at most once
/// and eviction never loses the address itself.
pub struct UpstreamPool {
    all: Vec<String>,
    active: Vec<usize>,
}

impl UpstreamPool {
    /// Every active entry names a configured address, and none twice.
    pub closed spec fn wf(self) -> bool {
        &&& forall|i: int|
            0 <= i < self.active@.len() ==> (#[trigger] self.active@[i]) < self.all@.len()
        &&& forall|i: int, j: int|
            0 <= i < j < self.active@.len() ==> self.active@[i] != self.active@[j]
    }

    /// The configured addresses, in configuration order.
    pub closed spec fn all_addrs(self) -> Seq<String> {
        self.all@
    }

    /// The positions (into the configured list) of the addresses currently
    /// believed healthy.
    pub closed spec fn active_positions(self) -> Seq<usize> {
        self.active@
    }

    /// Builds a pool in which every configured address starts out healthy.
    pub fn new(upstreams: Vec<String>) -> (p: Self)
        ensures
            p.wf(),
            p.all_addrs() == upstreams@,
            p.active_positions().len() == upstreams@.len(),
            forall|i: int|
                0 <= i < upstreams@.len() ==> (#[trigger] p.active_positions()[i]) == i,
    {
        let n = upstreams.len();
        let mut active: Vec<usize> = Vec::new();
        let mut k: usize = 0;
        while k < n
            invariant
                0 <= k <= n,
                active@.len() == k,
                forall|i: int| 0 <= i < k ==> (#[trigger] active@[i]) == i,
            decreases n - k,
        {
            active.push(k);
            k = k + 1;
        }
        UpstreamPool { all: upstreams, active }
    }

    /// How many configured addresses there are.
    pub fn all_count(&self) -> (r: usize)
        ensures
            r == self.all_addrs().len(),
    {
        self.all.len()
    }

    /// How many addresses are currently believed healthy.
    pub fn active_count(&self) -> (r: usize)
        ensures
            r == self.active_positions().len(),
    {
        self.active.len()
    }

    /// Picks a slot of the healthy subset at random, or nothing when the
    /// subset is empty and routing must fail.
    pub fn choose_active_slot(&self) -> (o: Option<usize>)
        ensures
            match o {
                Option::None => self.active_positions().len() == 0,
                Option::Some(s) => s < self.active_positions().len(),
            },
    {
        let n = self.active.len();
        if n == 0 {
            Option::None
        } else {
            Option::Some(random_below(n))
        }
    }

    /// The address held by slot `s` of the healthy subset.
    pub fn address_at_slot(&self, s: usize) -> (r: &String)
        requires
            self.wf(),
            s < self.active_positions().len(),
        ensures
            r == self.all_addrs()[self.active_positions()[s as int] as int],
    {
        let pos = self.active[s];
        &self.all[pos]
    }

    /// Removes slot `s` from the healthy subset after a failed dial. The
    /// configured list is untouched, so a later health check can readmit
    /// the address.
    pub fn evict_slot(&mut self, s: usize)
        requires
            old(self).wf(),
            s < old(self).active_positions().len(),
        ensures
            final(self).wf(),
            final(self).all_addrs() == old(self).all_addrs(),
            final(self).active_positions() == old(self).active_positions().remove(s as int),
    {
        self.active.remove(s);
    }

    /// Replaces the healthy subset with the positions marked healthy in
    /// `h`, one flag per configured address.
    pub fn rebuild_active(&mut self, h: &Vec<bool>)
        requires
            old(self).wf(),
            h@.len() == old(self).all_addrs().len(),
        ensures
            final(self).wf(),
            final(self).all_addrs() == old(self).all_addrs(),
            final(self).active_positions() == healthy_positions(h@, h@.len() as int),
    {
        let n = h.len();
        let mut active: Vec<usize> = Vec::new();
        let mut k: usize = 0;
        while k < n
            invariant
                0 <= k <= n,
                n == h@.len(),
                active@ == healthy_positions(h@, k as int),
            decreases n - k,
        {
            if h[k] {
                active.push(k);
            }
            k = k + 1;
        }
        proof {
            lemma_healthy_positions_wf(h@, n as int);
        }
        self.active = active;
    }
}

/// The healthy subset only ever names configured addresses: whatever slot
/// is read, the address it yields is one of the configured ones.
pub proof fn lemma_active_subset(p: UpstreamPool, i: int)
    requires
        p.wf(),
        0 <= i < p.active_positions().len(),
    ensures
        0 <= p.active_positions()[i] < p.all_addrs().len(),
        p.all_addrs().contains(p.all_addrs()[p.active_positions()[i] as int]),
{
    let j = p.active_positions()[i] as int;
    assert(p.all_addrs().contains(p.all_addrs()[j]));
}

} // verus!
