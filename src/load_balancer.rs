//! Backend selection: the three policies and the load balancer that owns
//! the registry and the rotation cursor.
use crate::config::BackendServer;
use rand::Rng;
use std::collections::hash_map::DefaultHasher;
use std::hash::Hasher;
use vstd::prelude::*;
use vstd::std_specs::hash::DefaultHasherAdditionalSpecFns;
use vstd::utf8::encode_utf8;

verus! {

/// The selection policy, fixed at startup.
#[derive(Clone, Copy, Debug, PartialEq, Eq, Structural)]
pub enum LoadBalancingMethod {
    RoundRobin,
    Random,
    IPHash,
}

/// The policy that a configuration string names; anything unrecognised
/// means round robin.
pub open spec fn method_named(name: Seq<char>) -> LoadBalancingMethod {
    if name == "random"@ {
        LoadBalancingMethod::Random
    } else if name == "ip_hash"@ {
        LoadBalancingMethod::IPHash
    } else {
        LoadBalancingMethod::RoundRobin
    }
}

/// The cursor after one round-robin step: it counts up and wraps to zero
/// past the largest `usize`.
pub open spec fn next_cursor(c: usize) -> usize {
    if c == usize::MAX {
        0
    } else {
        (c + 1) as usize
    }
}

/// The cursor after `k` round-robin steps from `c`.
pub open spec fn cursor_after(c: usize, k: nat) -> usize
    decreases k,
{
    if k == 0 {
        c
    } else {
        next_cursor(cursor_after(c, (k - 1) as nat))
    }
}

/// The registry position that round robin takes for a cursor value.
pub open spec fn round_robin_index(cursor: usize, n: nat) -> int {
    cursor as int % n as int
}

/// The hash of a client address string: std's `DefaultHasher` fed the
/// string the way `str`'s `Hash` impl feeds it (its UTF-8 bytes, then a
/// terminating `0xff` byte).
pub open spec fn ip_hash_of(ip: Seq<char>) -> u64 {
    DefaultHasher::spec_finish(seq![encode_utf8(ip), seq![0xffu8]])
}

/// The registry position that IP hashing takes for a client address.
pub open spec fn ip_hash_index(ip: Seq<char>, n: nat) -> int {
    ip_hash_of(ip) as int % n as int
}

/// `r` is the backend at position `i` of `servers`.
pub open spec fn picks(r: Option<&BackendServer>, servers: Seq<BackendServer>, i: int) -> bool {
    &&& 0 <= i < servers.len()
    &&& r is Some
    &&& *r->Some_0 == servers[i]
}

/// What one `pick` does: from state `pre`, for a client at `ip`, it returns
/// `r` and leaves the load balancer in state `post`.
pub open spec fn pick_post(
    pre: LoadBalancerView,
    ip: Seq<char>,
    r: Option<&BackendServer>,
    post: LoadBalancerView,
) -> bool {
    let n = pre.servers.len();
    &&& post.method == pre.method
    &&& post.servers == pre.servers
    &&& n == 0 ==> r is None && post == pre
    &&& n > 0 ==> match pre.method {
        LoadBalancingMethod::RoundRobin => {
            &&& picks(r, pre.servers, round_robin_index(pre.cursor, n))
            &&& post.cursor == next_cursor(pre.cursor)
        },
        LoadBalancingMethod::Random => {
            &&& exists|i: int| picks(r, pre.servers, i)
            &&& post == pre
        },
        LoadBalancingMethod::IPHash => {
            &&& picks(r, pre.servers, ip_hash_index(ip, n))
            &&& post == pre
        },
    }
}

/// The abstract state of a load balancer.
pub ghost struct LoadBalancerView {
    pub method: LoadBalancingMethod,
    pub servers: Seq<BackendServer>,
    pub cursor: usize,
}

/// Owns the backend registry and the rotation cursor, and picks a backend
/// for each connection.
pub struct LoadBalancer {
    method: LoadBalancingMethod,
    servers: Vec<BackendServer>,
    current_server_index: usize,
}

impl View for LoadBalancer {
    type V = LoadBalancerView;

    closed spec fn view(&self) -> LoadBalancerView {
        LoadBalancerView {
            method: self.method,
            servers: self.servers@,
            cursor: self.current_server_index,
        }
    }
}

/// Relies on rand's `thread_rng().gen_range(0..n)`: a value in `[0, n)`
/// (it panics on an empty range, which `requires` rules out).
#[verifier::external_body]
fn random_below(n: usize) -> (r: usize)
    requires
        n > 0,
    ensures
        r < n,
{
    rand::thread_rng().gen_range(0..n)
}

/// Hashes a client address exactly as `client_ip.hash(&mut DefaultHasher::new())`
/// followed by `finish` does.
fn hash_client_ip(client_ip: &str) -> (r: u64)
    ensures
        r == ip_hash_of(client_ip@),
{
    let mut hasher = DefaultHasher::new();
    hasher.write(client_ip.as_bytes());
    let terminator: [u8; 1] = [0xffu8];
    let tail = terminator.as_slice();
    assert(tail@ =~= seq![0xffu8]);
    hasher.write(tail);
    let r = hasher.finish();
    assert(hasher@ =~= seq![encode_utf8(client_ip@), seq![0xffu8]]);
    r
}

impl LoadBalancer {
    /// A load balancer over `servers` whose rotation cursor starts at `current`.
    pub fn new(method: LoadBalancingMethod, servers: Vec<BackendServer>, current: usize) -> (r:
        LoadBalancer)
        ensures
            r@.method == method,
            r@.servers == servers@,
            r@.cursor == current,
    {
        LoadBalancer { method, servers, current_server_index: current }
    }

    /// Picks a backend for a connection from `client_ip` with the configured
    /// policy; `None` exactly when the registry is empty.
    pub fn get_server(&mut self, client_ip: &str) -> (r: Option<&BackendServer>)
        ensures
            pick_post(old(self)@, client_ip@, r, final(self)@),
    {
        match self.method {
            LoadBalancingMethod::RoundRobin => self.get_server_round_robin(),
            LoadBalancingMethod::Random => self.get_server_random(),
            LoadBalancingMethod::IPHash => self.get_server_ip_hash(client_ip),
        }
    }

    fn get_server_round_robin(&mut self) -> (r: Option<&BackendServer>)
        ensures
            final(self)@.method == old(self)@.method,
            final(self)@.servers == old(self)@.servers,
            old(self)@.servers.len() == 0 ==> r is None && final(self)@ == old(self)@,
            old(self)@.servers.len() > 0 ==> {
                &&& picks(
                    r,
                    old(self)@.servers,
                    round_robin_index(old(self)@.cursor, old(self)@.servers.len()),
                )
                &&& final(self)@.cursor == next_cursor(old(self)@.cursor)
            },
    {
        if self.servers.len() == 0 {
            return None;
        }
        let index = self.current_server_index % self.servers.len();
        self.current_server_index = if self.current_server_index == usize::MAX {
            0
        } else {
            self.current_server_index + 1
        };
        Some(&self.servers[index])
    }

    fn get_server_random(&self) -> (r: Option<&BackendServer>)
        ensures
            self@.servers.len() == 0 ==> r is None,
            self@.servers.len() > 0 ==> exists|i: int| picks(r, self@.servers, i),
    {
        if self.servers.len() == 0 {
            return None;
        }
        let random_index = random_below(self.servers.len());
        let r = Some(&self.servers[random_index]);
        assert(picks(r, self@.servers, random_index as int));
        r
    }

    fn get_server_ip_hash(&self, client_ip: &str) -> (r: Option<&BackendServer>)
        ensures
            self@.servers.len() == 0 ==> r is None,
            self@.servers.len() > 0 ==> picks(
                r,
                self@.servers,
                ip_hash_index(client_ip@, self@.servers.len()),
            ),
    {
        let hash = hash_client_ip(client_ip);
        if self.servers.len() == 0 {
            return None;
        }
        let index = (hash % (self.servers.len() as u64)) as usize;
        Some(&self.servers[index])
    }
}

/// The policy that a configuration string names; unrecognised strings mean
/// round robin.
pub fn get_load_balancing_method(method: &str) -> (r: LoadBalancingMethod)
    ensures
        r == method_named(method@),
{
    proof {
        reveal_strlit("round_robin");
        reveal_strlit("random");
        reveal_strlit("ip_hash");
    }
    let name = method.to_owned();
    assert("round_robin"@.len() == 11);
    assert("random"@.len() == 6);
    assert("ip_hash"@.len() == 7);
    if name == "round_robin".to_owned() {
        LoadBalancingMethod::RoundRobin
    } else if name == "random".to_owned() {
        LoadBalancingMethod::Random
    } else if name == "ip_hash".to_owned() {
        LoadBalancingMethod::IPHash
    } else {
        LoadBalancingMethod::RoundRobin
    }
}

} // verus!
