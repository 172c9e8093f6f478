use vstd::prelude::*;

use vstd::arithmetic::div_mod::{
    lemma_add_mod_noop, lemma_add_mod_noop_right, lemma_fundamental_div_mod,
    lemma_mod_add_multiples_vanish, lemma_mod_division_less_than_divisor,
    lemma_mod_multiples_vanish, lemma_small_mod,
};

use crate::upstream::Upstream;

verus! {

/// A round-robin selector over a fixed, non-empty list of upstream servers.
/// Each call of `get_upstream` hands out the server under the cursor and
/// advances the cursor by one, wrapping at the end of the list.
pub struct LoadBalancer {
    servers: Vec<Upstream>,
    current_index: usize,
}

/// The index that the cursor takes `n` picks after it stood at `k`, with `s`
/// servers.
pub open spec fn rr_index(k: nat, n: nat, s: nat) -> nat
    recommends
        s > 0,
{
    (((k + n) as int) % (s as int)) as nat
}

/// How many of the first `n` picks after the cursor stood at `k` fall on
/// server `t`, with `s` servers.
pub open spec fn rr_hits(k: nat, n: nat, s: nat, t: nat) -> nat
    decreases n,
{
    if n == 0 {
        0
    } else {
        rr_hits(k, (n - 1) as nat, s, t) + if rr_index(k, (n - 1) as nat, s) == t {
            1nat
        } else {
            0nat
        }
    }
}

impl LoadBalancer {
    /// The servers, in the order they were given.
    pub closed spec fn spec_servers(&self) -> Seq<Upstream> {
        self.servers@
    }

    /// The cursor: the index of the server that the next pick hands out.
    pub closed spec fn spec_cursor(&self) -> nat {
        self.current_index as nat
    }

    /// The server list is non-empty and the cursor stands inside it.
    pub open spec fn wf(&self) -> bool {
        &&& self.spec_servers().len() > 0
        &&& self.spec_cursor() < self.spec_servers().len()
    }

    /// Builds a load balancer over the given servers, cursor on the first.
    /// The server list must not be empty.
    pub fn new(servers: Vec<Upstream>) -> (lb: LoadBalancer)
        requires
            servers@.len() > 0,
        ensures
            lb.wf(),
            lb.spec_servers() == servers@,
            lb.spec_cursor() == 0,
    {
        LoadBalancer { servers, current_index: 0 }
    }

    /// The number of servers.
    pub fn server_count(&self) -> (n: usize)
        ensures
            n == self.spec_servers().len(),
    {
        self.servers.len()
    }

    /// Hands out the server under the cursor and advances the cursor by one,
    /// wrapping modulo the server count.
    pub fn get_upstream(&mut self) -> (u: Upstream)
        requires
            old(self).wf(),
        ensures
            final (self).wf(),
            final (self).spec_servers() == old(self).spec_servers(),
            u == old(self).spec_servers()[old(self).spec_cursor() as int],
            final (self).spec_cursor() == rr_index(
                old(self).spec_cursor(),
                1,
                old(self).spec_servers().len(),
            ),
    {
        let n = self.servers.len();
        let u = self.servers[self.current_index];
        self.current_index = (self.current_index + 1) % n;
        u
    }
}

/// Advancing pick by pick agrees with jumping: the cursor after `n + 1`
/// picks is one step past the cursor after `n` picks. With
/// `get_upstream`'s contract this pins the server of the n-th request after
/// the cursor stood at `k` to `servers[(k + n) % s]`.
pub proof fn lemma_rr_index_step(k: nat, n: nat, s: nat)
    requires
        s > 0,
    ensures
        rr_index(k, n + 1, s) == rr_index(rr_index(k, n, s), 1, s),
{
    let si = s as int;
    let x = (k + n) as int;
    lemma_mod_division_less_than_divisor(x, si);
    lemma_add_mod_noop(x, 1, si);
    lemma_add_mod_noop_right(x % si, 1, si);
}

/// The offset, from cursor `k`, of the one pick in a full cycle that falls
/// on server `t`.
pub open spec fn rr_offset(k: nat, t: nat, s: nat) -> nat
    recommends
        s > 0,
        t < s,
{
    ((((t + s) as int) - ((k as int) % (s as int))) % (s as int)) as nat
}

/// The pick at the offset falls on `t`, and no other pick of the cycle does.
proof fn lemma_rr_offset_hits(k: nat, t: nat, s: nat)
    requires
        s > 0,
        t < s,
    ensures
        rr_offset(k, t, s) < s,
        rr_index(k, rr_offset(k, t, s), s) == t,
        forall|i: nat| i < s && rr_index(k, i, s) == t ==> i == rr_offset(k, t, s),
{
    let si = s as int;
    let ki = k as int;
    let ti = t as int;
    let kr = ki % si;
    let x = (ti + si) - kr;
    lemma_mod_division_less_than_divisor(ki, si);
    lemma_mod_division_less_than_divisor(x, si);
    let di = x % si;
    assert(rr_offset(k, t, s) == di);
    let d = rr_offset(k, t, s);
    // (k + d) % s == t
    lemma_add_mod_noop_right(ki, x, si);
    assert((ki + di) % si == (ki + x) % si);
    lemma_fundamental_div_mod(ki, si);
    let q = ki / si;
    assert(ki + x == si * (q + 1) + ti) by {
        vstd::arithmetic::mul::lemma_mul_is_distributive_add(si, q, 1);
    }
    lemma_mod_multiples_vanish(q + 1, ti, si);
    lemma_small_mod(t, s);
    assert((ki + di) % si == ti);
    assert(rr_index(k, d, s) == t);
    // uniqueness
    assert forall|i: nat| i < s && rr_index(k, i, s) == t implies i == d by {
        lemma_rr_index_unique(k, i, d, s);
    }
}

/// Two picks of one cycle cannot fall on the same server.
proof fn lemma_rr_index_unique(k: nat, i: nat, j: nat, s: nat)
    requires
        s > 0,
        i < s,
        j < s,
        rr_index(k, i, s) == rr_index(k, j, s),
    ensures
        i == j,
{
    let si = s as int;
    let xi = (k + i) as int;
    let xj = (k + j) as int;
    lemma_fundamental_div_mod(xi, si);
    lemma_fundamental_div_mod(xj, si);
    lemma_mod_division_less_than_divisor(xi, si);
    lemma_mod_division_less_than_divisor(xj, si);
    let qi = xi / si;
    let qj = xj / si;
    assert(xi % si == xj % si);
    assert(xi - xj == (qi - qj) * si) by {
        assert(xi == qi * si + xi % si);
        assert(xj == qj * si + xj % si);
        vstd::arithmetic::mul::lemma_mul_is_distributive_sub_other_way(si, qi, qj);
    }
    assert((i as int) - (j as int) == (qi - qj) * si);
    assert((i as int) - (j as int) < si);
    assert((j as int) - (i as int) < si);
    assert(i == j) by (nonlinear_arith)
        requires
            (i as int) - (j as int) == (qi - qj) * si,
            (i as int) - (j as int) < si,
            (j as int) - (i as int) < si,
            si > 0,
    ;
}

/// In a window of at most one cycle, server `t` is picked once if the window
/// reaches its offset and never otherwise.
proof fn lemma_rr_hits_window(k: nat, m: nat, s: nat, t: nat)
    requires
        s > 0,
        t < s,
        m <= s,
    ensures
        rr_hits(k, m, s, t) == if rr_offset(k, t, s) < m {
            1nat
        } else {
            0nat
        },
    decreases m,
{
    lemma_rr_offset_hits(k, t, s);
    if m > 0 {
        lemma_rr_hits_window(k, (m - 1) as nat, s, t);
        if rr_index(k, (m - 1) as nat, s) == t {
            assert((m - 1) as nat == rr_offset(k, t, s));
        }
    }
}

/// Counting hits splits at any point: the hits of a long run are the hits of
/// its first part plus the hits of the rest.
proof fn lemma_rr_hits_add(k: nat, a: nat, b: nat, s: nat, t: nat)
    requires
        s > 0,
    ensures
        rr_hits(k, a + b, s, t) == rr_hits(k, a, s, t) + rr_hits(k + a, b, s, t),
    decreases b,
{
    if b == 0 {
    } else {
        lemma_rr_hits_add(k, a, (b - 1) as nat, s, t);
        assert(rr_index(k, (a + b - 1) as nat, s) == rr_index(k + a, (b - 1) as nat, s));
    }
}

/// One full cycle picks every server exactly once.
proof fn lemma_rr_hits_cycle(k: nat, s: nat, t: nat)
    requires
        s > 0,
        t < s,
    ensures
        rr_hits(k, s, s, t) == 1,
{
    lemma_rr_offset_hits(k, t, s);
    lemma_rr_hits_window(k, s, s, t);
}

/// Round-robin fairness: over `n` sequential picks against `s` servers, each
/// server is picked at least `n / s` times and at most one more than that
/// when the picks do not divide evenly; that is, exactly `floor(n / s)` or
/// `ceil(n / s)` times.
pub proof fn lemma_rr_fairness(k: nat, n: nat, s: nat, t: nat)
    requires
        s > 0,
        t < s,
    ensures
        n / s <= rr_hits(k, n, s, t),
        rr_hits(k, n, s, t) <= n / s + if n % s == 0 {
            0nat
        } else {
            1nat
        },
    decreases n,
{
    let si = s as int;
    if n < s {
        lemma_small_mod(n, s);
        lemma_rr_hits_window(k, n, s, t);
        assert((n as int) / si == 0) by {
            vstd::arithmetic::div_mod::lemma_basic_div(n as int, si);
        }
    } else {
        lemma_rr_hits_add(k, s, (n - s) as nat, s, t);
        lemma_rr_hits_cycle(k, s, t);
        lemma_rr_fairness(k + s, (n - s) as nat, s, t);
        // n / s == (n - s) / s + 1 and n % s == (n - s) % s
        vstd::arithmetic::div_mod::lemma_div_plus_one((n - s) as int, si);
        assert((n as int) / si == ((n - s) as int) / si + 1);
        lemma_mod_add_multiples_vanish((n - s) as int, si);
    }
}

} // verus!
