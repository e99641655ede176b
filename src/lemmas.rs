//! What holds of successive picks: the round-robin rotation, its fairness,
//! the distinct cursors it observes, and the stability of IP hashing and of
//! the default policy.
use crate::config::BackendServer;
use crate::load_balancer::{
    LoadBalancerView, LoadBalancingMethod, cursor_after, ip_hash_index, method_named,
    next_cursor, pick_post, picks, round_robin_index,
};
use vstd::arithmetic::div_mod::{
    lemma_div_is_ordered, lemma_fundamental_div_mod, lemma_fundamental_div_mod_converse,
};
use vstd::prelude::*;

verus! {

/// How often position `j` occurs in `s`.
pub open spec fn occurrences(s: Seq<int>, j: int) -> nat
    decreases s.len(),
{
    if s.len() == 0 {
        0
    } else {
        occurrences(s.drop_last(), j) + (if s.last() == j {
            1nat
        } else {
            0nat
        })
    }
}

/// The registry positions that `m` successive round-robin picks over `n`
/// backends return, from cursor `c`.
pub open spec fn round_robin_positions(c: usize, m: nat, n: nat) -> Seq<int> {
    Seq::new(m, |k: int| round_robin_index(cursor_after(c, k as nat), n))
}

proof fn lemma_cursor_after_no_wrap(c: usize, k: nat)
    requires
        c + k <= usize::MAX,
    ensures
        cursor_after(c, k) == c + k,
    decreases k,
{
    if k > 0 {
        lemma_cursor_after_no_wrap(c, (k - 1) as nat);
    }
}

proof fn lemma_cursor_after_mod(c: usize, k: nat)
    ensures
        cursor_after(c, k) as int == (c + k) % (usize::MAX + 1),
    decreases k,
{
    let w = usize::MAX + 1;
    if k == 0 {
        lemma_fundamental_div_mod_converse(c as int, w, 0, c as int);
    } else {
        lemma_cursor_after_mod(c, (k - 1) as nat);
        let p = cursor_after(c, (k - 1) as nat) as int;
        let q = (c + k - 1) / w;
        lemma_fundamental_div_mod(c + k - 1, w);
        if p == usize::MAX {
            assert(c + k == (q + 1) * w) by (nonlinear_arith)
                requires
                    c + k - 1 == w * q + p,
                    p == w - 1,
            ;
            lemma_fundamental_div_mod_converse(c + k, w, q + 1, 0);
        } else {
            assert(c + k == q * w + (p + 1)) by (nonlinear_arith)
                requires
                    c + k - 1 == w * q + p,
            ;
            lemma_fundamental_div_mod_converse(c + k, w, q, p + 1);
        }
    }
}

/// Adding one to `t` raises `t / n` by one exactly when `t + 1` is a
/// multiple of `n`.
proof fn lemma_div_step(t: int, n: int)
    requires
        t >= 0,
        n > 0,
    ensures
        (t + 1) / n == t / n + (if (t + 1) % n == 0 {
            1int
        } else {
            0int
        }),
{
    let q = t / n;
    let s = t % n;
    lemma_fundamental_div_mod(t, n);
    if s + 1 == n {
        assert(t + 1 == (q + 1) * n + 0) by (nonlinear_arith)
            requires
                t == n * q + s,
                s + 1 == n,
        ;
        lemma_fundamental_div_mod_converse(t + 1, n, q + 1, 0);
    } else {
        assert(t + 1 == q * n + (s + 1)) by (nonlinear_arith)
            requires
                t == n * q + s,
        ;
        lemma_fundamental_div_mod_converse(t + 1, n, q, s + 1);
    }
}

/// `x % n == j` exactly when `x + n - j` is a multiple of `n`.
proof fn lemma_mod_hit(x: int, n: int, j: int)
    requires
        x >= 0,
        0 <= j < n,
    ensures
        (x % n == j) == ((x + n - j) % n == 0),
{
    let q = x / n;
    let s = x % n;
    lemma_fundamental_div_mod(x, n);
    if s == j {
        assert(x + n - j == (q + 1) * n + 0) by (nonlinear_arith)
            requires
                x == n * q + s,
                s == j,
        ;
        lemma_fundamental_div_mod_converse(x + n - j, n, q + 1, 0);
    } else if s > j {
        assert(x + n - j == (q + 1) * n + (s - j)) by (nonlinear_arith)
            requires
                x == n * q + s,
        ;
        lemma_fundamental_div_mod_converse(x + n - j, n, q + 1, s - j);
    } else {
        assert(x + n - j == q * n + (s + n - j)) by (nonlinear_arith)
            requires
                x == n * q + s,
        ;
        lemma_fundamental_div_mod_converse(x + n - j, n, q, s + n - j);
    }
}

/// The number of round-robin hits on position `j` among the first `m`
/// positions, in closed form.
proof fn lemma_occurrences_closed_form(c: usize, m: nat, n: nat, j: int)
    requires
        n > 0,
        0 <= j < n,
        c + m <= usize::MAX + 1,
    ensures
        occurrences(round_robin_positions(c, m, n), j) as int == (c + m + n - 1 - j) / (n as int)
            - (c + n - 1 - j) / (n as int),
    decreases m,
{
    if m > 0 {
        let prev = (m - 1) as nat;
        lemma_occurrences_closed_form(c, prev, n, j);
        assert(round_robin_positions(c, m, n).drop_last() =~= round_robin_positions(c, prev, n));
        lemma_cursor_after_no_wrap(c, prev);
        lemma_div_step(c + prev + n - 1 - j, n as int);
        lemma_mod_hit(c + prev, n as int, j);
    }
}

/// Round-robin rotation: over a run of picks from one load balancer with
/// at least one backend, the `k`-th pick observes the cursor `k` steps past
/// the first and returns the backend at the matching round-robin position.
pub proof fn lemma_round_robin_run(
    views: Seq<LoadBalancerView>,
    ips: Seq<Seq<char>>,
    results: Seq<Option<&BackendServer>>,
)
    requires
        views.len() == results.len() + 1,
        ips.len() == results.len(),
        views[0].method == LoadBalancingMethod::RoundRobin,
        views[0].servers.len() > 0,
        forall|k: int| 0 <= k < results.len() ==> pick_post(views[k], ips[k], results[k], views[k + 1]),
    ensures
        forall|k: int|
            0 <= k < results.len() ==> #[trigger] views[k].cursor == cursor_after(
                views[0].cursor,
                k as nat,
            ),
        forall|k: int|
            0 <= k < results.len() ==> picks(
                #[trigger] results[k],
                views[0].servers,
                round_robin_positions(views[0].cursor, results.len(), views[0].servers.len())[k],
            ),
{
    let c = views[0].cursor;
    let n = views[0].servers.len();
    let m = results.len();
    let s = round_robin_positions(c, m, n);
    assert forall|k: int| 0 <= k < m implies {
        &&& views[k].cursor == cursor_after(c, k as nat)
        &&& picks(#[trigger] results[k], views[0].servers, s[k])
    } by {
        lemma_run_prefix(views, ips, results, k);
        assert(pick_post(views[k], ips[k], results[k], views[k + 1]));
        assert(s[k] == round_robin_index(views[k].cursor, n));
    }
    assert forall|k: int| 0 <= k < m implies #[trigger] views[k].cursor == cursor_after(c, k as nat) by {
        assert(picks(results[k], views[0].servers, s[k]));
    }
}

proof fn lemma_run_prefix(
    views: Seq<LoadBalancerView>,
    ips: Seq<Seq<char>>,
    results: Seq<Option<&BackendServer>>,
    k: int,
)
    requires
        views.len() == results.len() + 1,
        ips.len() == results.len(),
        views[0].method == LoadBalancingMethod::RoundRobin,
        views[0].servers.len() > 0,
        forall|i: int| 0 <= i < results.len() ==> pick_post(views[i], ips[i], results[i], views[i + 1]),
        0 <= k <= results.len(),
    ensures
        views[k].cursor == cursor_after(views[0].cursor, k as nat),
        views[k].servers == views[0].servers,
        views[k].method == views[0].method,
    decreases k,
{
    if k > 0 {
        lemma_run_prefix(views, ips, results, k - 1);
        assert(pick_post(views[k - 1], ips[k - 1], results[k - 1], views[k]));
    }
}

/// Round-robin fairness: from a cursor `c` that does not wrap within `m`
/// picks over `n` backends, the positions run cyclically from `c mod n` with
/// period `n`, and each position comes back `⌊m/n⌋` or `⌈m/n⌉` times.
pub proof fn lemma_round_robin_fair(c: usize, m: nat, n: nat)
    requires
        n > 0,
        c + m <= usize::MAX + 1,
    ensures
        forall|k: int| 0 <= k < m ==> #[trigger] round_robin_positions(c, m, n)[k] == (c + k) % (n as int),
        forall|k: int|
            0 <= k && k + n < m ==> #[trigger] round_robin_positions(c, m, n)[k + n]
                == round_robin_positions(c, m, n)[k],
        forall|j: int|
            0 <= j < n ==> {
                &&& m / n <= #[trigger] occurrences(round_robin_positions(c, m, n), j)
                &&& occurrences(round_robin_positions(c, m, n), j) <= (m + n - 1) / (n as int)
            },
{
    let s = round_robin_positions(c, m, n);
    assert forall|k: int| 0 <= k < m implies #[trigger] s[k] == (c + k) % (n as int) by {
        lemma_cursor_after_no_wrap(c, k as nat);
    }
    assert forall|k: int| 0 <= k && k + n < m implies #[trigger] s[k + n] == s[k] by {
        assert(s[k + n] == (c + k + n) % (n as int));
        assert(s[k] == (c + k) % (n as int));
        lemma_mod_plus_period(c + k, n as int);
    }
    assert forall|j: int| 0 <= j < n implies {
        &&& m / n <= #[trigger] occurrences(s, j)
        &&& occurrences(s, j) <= (m + n - 1) / (n as int)
    } by {
        lemma_occurrences_closed_form(c, m, n, j);
        lemma_window_count(c + n - 1 - j, m as int, n as int);
    }
}

proof fn lemma_mod_plus_period(x: int, n: int)
    requires
        x >= 0,
        n > 0,
    ensures
        (x + n) % n == x % n,
{
    lemma_fundamental_div_mod(x, n);
    let q = x / n;
    assert(x + n == (q + 1) * n + x % n) by (nonlinear_arith)
        requires
            x == n * q + x % n,
    ;
    lemma_fundamental_div_mod_converse(x + n, n, q + 1, x % n);
}

/// The multiples of `n` in `(a, a + m]` number `⌊m/n⌋` or `⌈m/n⌉`.
proof fn lemma_window_count(a: int, m: int, n: int)
    requires
        a >= 0,
        m >= 0,
        n > 0,
    ensures
        m / n <= (a + m) / n - a / n <= (m + n - 1) / n,
{
    lemma_fundamental_div_mod(a, n);
    lemma_fundamental_div_mod(m, n);
    let qa = a / n;
    let ra = a % n;
    let qm = m / n;
    let rm = m % n;
    if ra + rm >= n {
        assert(a + m == (qa + qm + 1) * n + (ra + rm - n)) by (nonlinear_arith)
            requires
                a == n * qa + ra,
                m == n * qm + rm,
        ;
        lemma_fundamental_div_mod_converse(a + m, n, qa + qm + 1, ra + rm - n);
        assert(m + n - 1 == (qm + 1) * n + (rm - 1)) by (nonlinear_arith)
            requires
                m == n * qm + rm,
        ;
        lemma_fundamental_div_mod_converse(m + n - 1, n, qm + 1, rm - 1);
    } else {
        assert(a + m == (qa + qm) * n + (ra + rm)) by (nonlinear_arith)
            requires
                a == n * qa + ra,
                m == n * qm + rm,
        ;
        lemma_fundamental_div_mod_converse(a + m, n, qa + qm, ra + rm);
        lemma_div_is_ordered(m, m + n - 1, n);
    }
}

/// Distinct cursors: within `usize::MAX + 1` successive round-robin steps,
/// no two picks observe the same cursor value.
pub proof fn lemma_round_robin_cursors_distinct(c: usize, i: nat, j: nat)
    requires
        i < j <= usize::MAX,
    ensures
        cursor_after(c, i) != cursor_after(c, j),
{
    let w = usize::MAX + 1;
    lemma_cursor_after_mod(c, i);
    lemma_cursor_after_mod(c, j);
    lemma_fundamental_div_mod(c + i, w);
    lemma_fundamental_div_mod(c + j, w);
    let qi = (c + i) / w;
    let qj = (c + j) / w;
    if cursor_after(c, i) == cursor_after(c, j) {
        assert(j - i == (qj - qi) * w) by (nonlinear_arith)
            requires
                c + i == w * qi + (c + i) % w,
                c + j == w * qj + (c + j) % w,
                (c + i) % w == (c + j) % w,
        ;
        assert(false) by (nonlinear_arith)
            requires
                j - i == (qj - qi) * w,
                0 < j - i < w,
        ;
    }
}

/// A round-robin step never leaves the registry: every position it returns
/// lies in `[0, n)`.
pub proof fn lemma_round_robin_in_bounds(c: usize, n: nat)
    requires
        n > 0,
    ensures
        0 <= round_robin_index(c, n) < n,
{
}

/// IP-hash determinism: with IP hashing, picking twice for the same client
/// returns the same backend and leaves the load balancer as it was.
pub proof fn lemma_ip_hash_repeatable(
    v0: LoadBalancerView,
    ip: Seq<char>,
    r1: Option<&BackendServer>,
    v1: LoadBalancerView,
    r2: Option<&BackendServer>,
    v2: LoadBalancerView,
)
    requires
        v0.method == LoadBalancingMethod::IPHash,
        pick_post(v0, ip, r1, v1),
        pick_post(v1, ip, r2, v2),
    ensures
        r1 == r2,
        v2 == v0,
{
}

/// IP-hash position: the backend that IP hashing picks depends on the
/// registry's length and the client's address alone.
pub proof fn lemma_ip_hash_position(
    v: LoadBalancerView,
    w: LoadBalancerView,
    ip: Seq<char>,
    r: Option<&BackendServer>,
    v2: LoadBalancerView,
    s: Option<&BackendServer>,
    w2: LoadBalancerView,
)
    requires
        v.method == LoadBalancingMethod::IPHash,
        w.method == LoadBalancingMethod::IPHash,
        v.servers.len() == w.servers.len(),
        v.servers.len() > 0,
        pick_post(v, ip, r, v2),
        pick_post(w, ip, s, w2),
    ensures
        picks(r, v.servers, ip_hash_index(ip, v.servers.len())),
        picks(s, w.servers, ip_hash_index(ip, v.servers.len())),
{
}

/// An empty registry: whatever the policy, a pick returns nothing and
/// changes nothing.
pub proof fn lemma_empty_registry(
    v: LoadBalancerView,
    ip: Seq<char>,
    r: Option<&BackendServer>,
    v2: LoadBalancerView,
)
    requires
        v.servers.len() == 0,
        pick_post(v, ip, r, v2),
    ensures
        r is None,
        v2 == v,
{
}

/// Unknown method names: a name other than the three recognised ones
/// selects round robin, exactly as `"round_robin"` does.
pub proof fn lemma_unknown_method_is_round_robin(name: Seq<char>)
    requires
        name != "random"@,
        name != "ip_hash"@,
    ensures
        method_named(name) == LoadBalancingMethod::RoundRobin,
        method_named(name) == method_named("round_robin"@),
{
    reveal_strlit("round_robin");
    reveal_strlit("random");
    reveal_strlit("ip_hash");
    assert("round_robin"@.len() == 11);
}

} // verus!
