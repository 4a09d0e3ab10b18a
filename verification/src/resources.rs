//! Resource specifications for containers and the pricing rule that turns a
//! specification into a credit amount.

use vstd::prelude::*;

use crate::catalog::Container;

verus! {

/// Number of bytes in one gibibyte.
pub const GIB: i64 = 1073741824;

/// Credits charged per requested cpu core.
pub const CPU_CORE_PRICE: i64 = 15;

/// The memory, swap and cpu quantities requested for a container.
pub struct ContainerResources {
    pub cpu_shares: i64,
    pub memory: i64,
    pub memory_swap: i64,
    pub cpu_cores: i64,
}

/// Whole gibibytes contained in `bytes`, rounding toward zero.
pub open spec fn spec_gigabytes(bytes: int) -> int {
    bytes / (GIB as int)
}

/// Price of the memory component: two credits per whole gibibyte, plus two.
pub open spec fn spec_memory_cost(memory: int) -> int {
    spec_gigabytes(memory) * 2 + 2
}

/// Price of the swap component: one credit per whole gibibyte, plus one.
pub open spec fn spec_swap_cost(memory_swap: int) -> int {
    spec_gigabytes(memory_swap) + 1
}

/// Price of the cpu component: fifteen credits per core.
pub open spec fn spec_cpu_cost(cpu_cores: int) -> int {
    cpu_cores * (CPU_CORE_PRICE as int)
}

/// The full price of a resource specification. Even the smallest container
/// costs `2 + 1 = 3` credits: there is no zero-cost tier.
pub open spec fn spec_price(r: ContainerResources) -> int {
    spec_memory_cost(r.memory as int) + spec_swap_cost(r.memory_swap as int)
        + spec_cpu_cost(r.cpu_cores as int)
}

/// Bounds under which the price arithmetic stays inside `i64`.
pub open spec fn spec_resources_bounded(r: ContainerResources) -> bool {
    &&& 0 <= r.memory
    &&& 0 <= r.memory_swap
    &&& 0 <= r.cpu_cores <= 0x10000000
}

impl ContainerResources {
    pub fn new(memory: i64, memory_swap: i64, cpu_cores: i64, cpu_shares: i64) -> (r: Self)
        ensures
            r.memory == memory,
            r.memory_swap == memory_swap,
            r.cpu_cores == cpu_cores,
            r.cpu_shares == cpu_shares,
    {
        Self { memory, memory_swap, cpu_cores, cpu_shares }
    }

    /// True when the quantities are non-negative and small enough for the
    /// price arithmetic; requests outside these bounds are rejected before
    /// any pricing is attempted.
    pub fn within_bounds(&self) -> (r: bool)
        ensures
            r == spec_resources_bounded(*self),
    {
        0 <= self.memory && 0 <= self.memory_swap && 0 <= self.cpu_cores
            && self.cpu_cores <= 0x10000000
    }

    pub fn calculate_price(&self) -> (price: i64)
        requires
            spec_resources_bounded(*self),
        ensures
            price == spec_price(*self),
            price >= 3,
    {
        proof {
            lemma_price_bounds(*self);
        }
        self.memory_cost() + self.swap_cost() + self.cpu_cost()
    }

    fn memory_cost(&self) -> (c: i64)
        requires
            0 <= self.memory,
        ensures
            c == spec_memory_cost(self.memory as int),
    {
        proof {
            lemma_gigabytes_bounds(self.memory as int);
        }
        bytes_to_gigabytes(self.memory) * 2 + 2
    }

    fn swap_cost(&self) -> (c: i64)
        requires
            0 <= self.memory_swap,
        ensures
            c == spec_swap_cost(self.memory_swap as int),
    {
        proof {
            lemma_gigabytes_bounds(self.memory_swap as int);
        }
        bytes_to_gigabytes(self.memory_swap) + 1
    }

    fn cpu_cost(&self) -> (c: i64)
        requires
            0 <= self.cpu_cores <= 0x10000000,
        ensures
            c == spec_cpu_cost(self.cpu_cores as int),
    {
        self.cpu_cores * CPU_CORE_PRICE
    }
}

impl Clone for ContainerResources {
    fn clone(&self) -> (r: Self)
        ensures
            r == *self,
    {
        ContainerResources {
            cpu_shares: self.cpu_shares,
            memory: self.memory,
            memory_swap: self.memory_swap,
            cpu_cores: self.cpu_cores,
        }
    }
}

pub fn bytes_to_gigabytes(bytes: i64) -> (g: i64)
    requires
        0 <= bytes,
    ensures
        g == spec_gigabytes(bytes as int),
{
    bytes / GIB
}

/// Whether a balance of `credits` admits a container with these resources.
/// The comparison is strict: a balance exactly equal to the price is refused
/// here. The ledger's reserve-and-debit, which the orchestrator's admission
/// uses, grants that boundary case instead.
pub fn validate_container_resources(credits: i64, resources: &ContainerResources) -> (r: bool)
    requires
        spec_resources_bounded(*resources),
    ensures
        r == (spec_price(*resources) < credits),
{
    let needed = resources.calculate_price();
    needed < credits
}

/// The total of one field, read as a mathematical integer, over a sequence
/// of containers.
pub open spec fn spec_sum(s: Seq<Container>, f: spec_fn(Container) -> int) -> int
    decreases s.len(),
{
    if s.len() == 0 {
        0
    } else {
        spec_sum(s.drop_last(), f) + f(s.last())
    }
}

/// With non-negative summands, every prefix sum is bounded by the total.
proof fn lemma_sum_prefix(s: Seq<Container>, f: spec_fn(Container) -> int, i: int)
    requires
        0 <= i <= s.len(),
        forall|j: int| 0 <= j < s.len() ==> f(#[trigger] s[j]) >= 0,
    ensures
        0 <= spec_sum(s.take(i), f) <= spec_sum(s, f),
    decreases s.len() - i,
{
    if i == s.len() {
        assert(s.take(i) =~= s);
        lemma_sum_nonneg(s, f);
    } else {
        lemma_sum_prefix(s, f, i + 1);
        assert(s.take(i + 1).drop_last() =~= s.take(i));
        assert(s.take(i + 1).last() == s[i]);
        assert(spec_sum(s.take(i + 1), f) == spec_sum(s.take(i), f) + f(s[i]));
        assert(f(s[i]) >= 0);
        assert forall|j: int| 0 <= j < s.take(i).len() implies f(#[trigger] s.take(i)[j])
            >= 0 by {
            assert(s.take(i)[j] == s[j]);
        }
        lemma_sum_nonneg(s.take(i), f);
    }
}

/// A sum of non-negative summands is non-negative.
proof fn lemma_sum_nonneg(s: Seq<Container>, f: spec_fn(Container) -> int)
    requires
        forall|j: int| 0 <= j < s.len() ==> f(#[trigger] s[j]) >= 0,
    ensures
        spec_sum(s, f) >= 0,
    decreases s.len(),
{
    if s.len() > 0 {
        lemma_sum_nonneg(s.drop_last(), f);
    }
}

/// Totals the resource quantities of the given containers, fieldwise: each
/// total is reported in its own field.
#[verifier::loop_isolation(false)]
pub fn check_user_resources(containers: &Vec<Container>) -> (r: ContainerResources)
    requires
        forall|j: int| 0 <= j < containers@.len() ==> {
            &&& (#[trigger] containers@[j]).memory >= 0
            &&& containers@[j].memory_swap >= 0
            &&& containers@[j].cpu_cores >= 0
            &&& containers@[j].cpu_shares >= 0
        },
        spec_sum(containers@, |c: Container| c.memory as int) <= i64::MAX,
        spec_sum(containers@, |c: Container| c.memory_swap as int) <= i64::MAX,
        spec_sum(containers@, |c: Container| c.cpu_cores as int) <= i64::MAX,
        spec_sum(containers@, |c: Container| c.cpu_shares as int) <= i64::MAX,
    ensures
        r.memory == spec_sum(containers@, |c: Container| c.memory as int),
        r.memory_swap == spec_sum(containers@, |c: Container| c.memory_swap as int),
        r.cpu_cores == spec_sum(containers@, |c: Container| c.cpu_cores as int),
        r.cpu_shares == spec_sum(containers@, |c: Container| c.cpu_shares as int),
{
    let ghost fmem = |c: Container| c.memory as int;
    let ghost fswap = |c: Container| c.memory_swap as int;
    let ghost fcores = |c: Container| c.cpu_cores as int;
    let ghost fshares = |c: Container| c.cpu_shares as int;
    let n = containers.len();
    let mut memory: i64 = 0;
    let mut memory_swap: i64 = 0;
    let mut cpu_cores: i64 = 0;
    let mut cpu_shares: i64 = 0;
    let mut i: usize = 0;
    while i < n
        invariant
            i <= n,
            memory == spec_sum(containers@.take(i as int), fmem),
            memory_swap == spec_sum(containers@.take(i as int), fswap),
            cpu_cores == spec_sum(containers@.take(i as int), fcores),
            cpu_shares == spec_sum(containers@.take(i as int), fshares),
        decreases n - i,
    {
        proof {
            assert(containers@.take(i + 1).drop_last() =~= containers@.take(i as int));
            assert(containers@.take(i + 1).last() == containers@[i as int]);
            lemma_sum_prefix(containers@, fmem, i + 1);
            lemma_sum_prefix(containers@, fswap, i + 1);
            lemma_sum_prefix(containers@, fcores, i + 1);
            lemma_sum_prefix(containers@, fshares, i + 1);
            lemma_sum_prefix(containers@, fmem, i as int);
            lemma_sum_prefix(containers@, fswap, i as int);
            lemma_sum_prefix(containers@, fcores, i as int);
            lemma_sum_prefix(containers@, fshares, i as int);
        }
        memory = memory + containers[i].memory;
        memory_swap = memory_swap + containers[i].memory_swap;
        cpu_cores = cpu_cores + containers[i].cpu_cores;
        cpu_shares = cpu_shares + containers[i].cpu_shares;
        i = i + 1;
    }
    proof {
        assert(containers@.take(n as int) =~= containers@);
    }
    ContainerResources { cpu_shares, memory, memory_swap, cpu_cores }
}

/// The whole-gibibyte count of a non-negative byte count is non-negative and
/// at most `2^33`.
proof fn lemma_gigabytes_bounds(bytes: int)
    requires
        0 <= bytes <= i64::MAX,
    ensures
        0 <= spec_gigabytes(bytes) <= 0x200000000,
{
    assert(0 <= bytes / (GIB as int) <= 0x200000000) by (nonlinear_arith)
        requires
            0 <= bytes <= i64::MAX,
            GIB == 1073741824,
    ;
}

/// Within the admitted bounds, every component of the price is non-negative
/// and their sum fits comfortably inside `i64`.
proof fn lemma_price_bounds(r: ContainerResources)
    requires
        spec_resources_bounded(r),
    ensures
        2 <= spec_memory_cost(r.memory as int) <= 0x400000002,
        1 <= spec_swap_cost(r.memory_swap as int) <= 0x200000001,
        0 <= spec_cpu_cost(r.cpu_cores as int) <= 0xF0000000,
        3 <= spec_price(r) <= 0x700000003,
{
    lemma_gigabytes_bounds(r.memory as int);
    lemma_gigabytes_bounds(r.memory_swap as int);
}

/// Non-decreasing division: a smaller byte count never yields more whole
/// gibibytes.
proof fn lemma_gigabytes_monotonic(a: int, b: int)
    requires
        0 <= a <= b,
    ensures
        spec_gigabytes(a) <= spec_gigabytes(b),
{
    assert(a / (GIB as int) <= b / (GIB as int)) by (nonlinear_arith)
        requires
            0 <= a <= b,
            GIB == 1073741824,
    ;
}

/// The price is non-decreasing in each of memory, swap and cpu cores
/// independently: raising any one quantity while keeping the others fixed
/// never lowers the price.
pub proof fn lemma_price_monotonic(r1: ContainerResources, r2: ContainerResources)
    requires
        0 <= r1.memory <= r2.memory,
        0 <= r1.memory_swap <= r2.memory_swap,
        0 <= r1.cpu_cores <= r2.cpu_cores,
    ensures
        spec_price(r1) <= spec_price(r2),
{
    lemma_gigabytes_monotonic(r1.memory as int, r2.memory as int);
    lemma_gigabytes_monotonic(r1.memory_swap as int, r2.memory_swap as int);
}

} // verus!
