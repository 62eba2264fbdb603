//! Where the nodes of a run are placed, and how each kind of node is driven.

pub mod client;
pub mod server;
pub mod throughput;

use vstd::prelude::*;
use vstd::string::*;
use vstd::arithmetic::div_mod::lemma_fundamental_div_mod_converse;
use vstd::std_specs::cmp::PartialEqSpecImpl;
use crate::error::{BenchError, ErrorView};
use crate::text::{decimal, usize_to_string};

pub use client::Client;
pub use server::Server;

verus! {

/// The port of the first node on a machine; each further node on the same
/// machine takes the next one.
pub const INIT_PORT: usize = 30000;

/// The two jobs a run can do.
#[derive(Clone, Copy, Debug, PartialEq, Eq, Structural)]
pub enum Action {
    Loading,
    Benchmarking,
}

impl Action {
    /// The number by which the client program is told its job.
    pub open spec fn code(self) -> int {
        match self {
            Action::Loading => 1,
            Action::Benchmarking => 2,
        }
    }

    pub fn as_int(&self) -> (code: i32)
        ensures
            code == self.code(),
    {
        match self {
            Action::Loading => 1,
            Action::Benchmarking => 2,
        }
    }
}

/// A node of a run: its number within its group, its machine and its port.
#[derive(Debug)]
pub struct ConnectionInfo {
    pub id: usize,
    pub ip: String,
    pub port: usize,
}

/// A node as plain values.
pub struct ConnectionView {
    pub id: int,
    pub ip: Seq<char>,
    pub port: int,
}

impl View for ConnectionInfo {
    type V = ConnectionView;

    open spec fn view(&self) -> ConnectionView {
        ConnectionView { id: self.id as int, ip: self.ip@, port: self.port as int }
    }
}

impl DeepView for ConnectionInfo {
    type V = ConnectionView;

    open spec fn deep_view(&self) -> ConnectionView {
        self@
    }
}

impl Clone for ConnectionInfo {
    fn clone(&self) -> (copy: Self)
        ensures
            copy == *self,
    {
        ConnectionInfo { id: self.id, ip: self.ip.clone(), port: self.port }
    }
}

impl PartialEq for ConnectionInfo {
    fn eq(&self, other: &ConnectionInfo) -> (equal: bool) {
        self.id == other.id && self.ip == other.ip && self.port == other.port
    }
}

impl PartialEqSpecImpl for ConnectionInfo {
    open spec fn obeys_eq_spec() -> bool {
        true
    }

    open spec fn eq_spec(&self, other: &ConnectionInfo) -> bool {
        self.id == other.id && self.ip@ == other.ip@ && self.port == other.port
    }
}

impl ConnectionView {
    /// The node as one entry of a process view: number, machine and port with
    /// a blank between.
    pub open spec fn entry(self) -> Seq<char> {
        decimal(self.id as nat) + " "@ + self.ip + " "@ + decimal(self.port as nat)
    }
}

/// The node that the walk over the machines gives the number `id`: the walk
/// visits every machine once per round, and a round shares one port.
pub open spec fn placed(pool: Seq<Seq<char>>, id: int) -> ConnectionView {
    ConnectionView {
        id,
        ip: pool[id % (pool.len() as int)],
        port: INIT_PORT + id / (pool.len() as int),
    }
}

/// The first `count` nodes of the walk over `pool`.
pub open spec fn placement(pool: Seq<Seq<char>>, count: nat) -> Seq<ConnectionView> {
    Seq::new(count, |id: int| placed(pool, id))
}

/// Whether `count` nodes fit on the machines of `pool` with at most
/// `max_per_ip` nodes on each.
pub open spec fn has_room(pool: Seq<Seq<char>>, count: nat, max_per_ip: nat) -> bool {
    count <= pool.len() * max_per_ip
}

/// What is said when the nodes do not fit.
pub open spec fn not_enough_machines() -> ErrorView {
    ErrorView::Message("The number of machines is not enough."@)
}

/// The plan for `count` nodes: the placement where they fit, a failure where
/// they do not.
pub open spec fn plan(pool: Seq<Seq<char>>, count: nat, max_per_ip: nat) -> Result<
    Seq<ConnectionView>,
    ErrorView,
> {
    if has_room(pool, count, max_per_ip) {
        Ok(placement(pool, count))
    } else {
        Err(not_enough_machines())
    }
}

/// A list of nodes, or the failure to make one, as plain values.
pub open spec fn plan_view(list: Result<Vec<ConnectionInfo>, BenchError>) -> Result<
    Seq<ConnectionView>,
    ErrorView,
> {
    match list {
        Ok(nodes) => Ok(nodes.deep_view()),
        Err(error) => Err(error@),
    }
}

/// The walk behind a plan: the numbers run from zero without a gap, every
/// node's port lies in the range that `max_per_ip` allows, and the node one
/// round later sits on the same machine, one port up.
pub proof fn lemma_plan_walk(pool: Seq<Seq<char>>, count: nat, max_per_ip: nat, id: int)
    requires
        has_room(pool, count, max_per_ip),
        0 <= id < count,
    ensures
        plan(pool, count, max_per_ip) matches Ok(nodes) && nodes.len() == count && nodes[id].id
            == id && INIT_PORT <= nodes[id].port < INIT_PORT + max_per_ip && (id + pool.len()
            < count ==> nodes[id + pool.len()].ip == nodes[id].ip && nodes[id + pool.len()].port
            == nodes[id].port + 1),
{
    let n = pool.len() as int;
    assert(n > 0) by (nonlinear_arith)
        requires
            0 <= id < count,
            count <= n * max_per_ip,
            n >= 0,
    ;
    let round = id / n;
    let host = id % n;
    vstd::arithmetic::div_mod::lemma_fundamental_div_mod(id, n);
    vstd::arithmetic::div_mod::lemma_div_pos_is_pos(id, n);
    vstd::arithmetic::div_mod::lemma_mod_division_less_than_divisor(id, n);
    assert(round < max_per_ip) by (nonlinear_arith)
        requires
            id == n * round + host,
            0 <= host < n,
            id < count,
            count <= n * max_per_ip,
    ;
    assert(id + n == (round + 1) * n + host) by (nonlinear_arith)
        requires
            id == n * round + host,
    ;
    lemma_fundamental_div_mod_converse(id + n, n, round + 1, host);
}

/// One set of machines and one pair of counts have one plan: two lists made
/// for them are the same list.
pub proof fn lemma_plan_is_fixed(
    first: Result<Vec<ConnectionInfo>, BenchError>,
    second: Result<Vec<ConnectionInfo>, BenchError>,
    pool: Seq<Seq<char>>,
    count: nat,
    max_per_ip: nat,
)
    requires
        plan_view(first) == plan(pool, count, max_per_ip),
        plan_view(second) == plan(pool, count, max_per_ip),
    ensures
        plan_view(first) == plan_view(second),
{
}

impl ConnectionInfo {
    /// Places `conn_count` nodes on the machines of `ip_list`, walking the list
    /// round by round, and fails where that would put more than
    /// `max_conn_per_ip` nodes on a machine.
    pub fn generate_connection_list(
        ip_list: &Vec<String>,
        conn_count: usize,
        max_conn_per_ip: usize,
    ) -> (list: Result<Vec<ConnectionInfo>, BenchError>)
        requires
            INIT_PORT + max_conn_per_ip <= usize::MAX,
        ensures
            plan_view(list) == plan(
                ip_list.deep_view(),
                conn_count as nat,
                max_conn_per_ip as nat,
            ),
    {
        let ghost pool = ip_list.deep_view();
        let n = ip_list.len();
        assert(pool.len() == n);
        assert(n * max_conn_per_ip <= u128::MAX) by (nonlinear_arith)
            requires
                n <= u64::MAX,
                max_conn_per_ip <= u64::MAX,
        ;
        let room: u128 = (n as u128) * (max_conn_per_ip as u128);
        if (conn_count as u128) > room {
            return Err(BenchError::Message(String::from_str("The number of machines is not enough.")));
        }
        assert(conn_count > 0 ==> n > 0) by (nonlinear_arith)
            requires
                conn_count <= n * max_conn_per_ip,
        ;
        let mut list: Vec<ConnectionInfo> = Vec::new();
        let mut id: usize = 0;
        let mut round: usize = 0;
        let mut host: usize = 0;
        while id < conn_count
            invariant
                pool == ip_list.deep_view(),
                n == ip_list@.len(),
                conn_count <= n * max_conn_per_ip,
                INIT_PORT + max_conn_per_ip <= usize::MAX,
                id <= conn_count,
                id == round * n + host,
                id < conn_count ==> host < n,
                list.deep_view() =~= placement(pool, id as nat),
            decreases conn_count - id,
        {
            proof {
                assert(round < max_conn_per_ip) by (nonlinear_arith)
                    requires
                        id == round * n + host,
                        id < conn_count,
                        conn_count <= n * max_conn_per_ip,
                        0 <= host,
                ;
                lemma_fundamental_div_mod_converse(id as int, n as int, round as int, host as int);
                assert(pool[host as int] == ip_list@[host as int]@);
            }
            let node = ConnectionInfo { id, ip: ip_list[host].clone(), port: INIT_PORT + round };
            assert(node@ == placed(pool, id as int));
            let ghost before = list.deep_view();
            list.push(node);
            assert(list.deep_view() =~= before.push(node@));
            id += 1;
            host += 1;
            if host == n {
                host = 0;
                round += 1;
                assert(id == round * n + host) by (nonlinear_arith)
                    requires
                        id - 1 == (round - 1) * n + (n - 1),
                        host == 0,
                ;
            } else {
                assert(id == round * n + host);
            }
            proof {
                if id < conn_count {
                    assert(n > 0);
                }
            }
        }
        Ok(list)
    }

    /// The node as one entry of a process view.
    pub fn to_string(&self) -> (text: String)
        ensures
            text@ == self@.entry(),
    {
        let mut text = usize_to_string(self.id);
        text.append(" ");
        text.append(self.ip.as_str());
        text.append(" ");
        let port = usize_to_string(self.port);
        text.append(port.as_str());
        text
    }
}

} // verus!
