//! The lifecycle orchestrator: admits creation requests against the plan
//! limit and the credit balance, leases a port, and commits or compensates
//! around the runtime engine's create, start, stop and delete calls.
//!
//! The engine itself is an outside process reached over slow I/O, so no
//! method here performs an engine call: the caller drives the engine between
//! method calls and reports each outcome back. Every method is a single
//! atomic accounting decision, and no engine call ever happens inside one,
//! which is what keeps the ledger, the lease table and the catalog exact
//! whatever the engine does. Once a request is admitted, provisioning runs
//! detached to completion or failure — at most once, no cancellation — and
//! its outcome is visible only through the catalog.

use vstd::prelude::*;

use rand::distr::Alphanumeric;
use rand::distr::SampleString;

use crate::catalog::CatalogEntry;
use crate::catalog::Container;
use crate::catalog::ContainerCatalog;
use crate::catalog::LifecycleState;
use crate::errors::ApiError;
use crate::ledger::CreditLedger;
use crate::ports::PortAllocator;
use crate::ports::spec_port_in_range;
use crate::ports::PORT_RANGE_END;
use crate::ports::PORT_RANGE_START;
use crate::resources::spec_price;
use crate::resources::spec_resources_bounded;
use crate::resources::ContainerResources;

verus! {

/// How many characters a generated container name has.
pub const NAME_LENGTH: usize = 16;

/// A creation request as the caller hands it in.
pub struct ContainerInfo {
    pub image: String,
    pub memory: i64,
    pub memory_swap: i64,
    pub cpu_cores: i64,
    pub cpu_shares: i64,
}

/// The cpu share weight given to a request that names none.
pub fn default_shares() -> (r: i64)
    ensures
        r == 512,
{
    512
}

/// The image given to a request that names none.
pub fn default_image() -> (r: String)
    ensures
        r@ == "dorowu/ubuntu-desktop-lxde-vnc"@,
{
    let img: String = "dorowu/ubuntu-desktop-lxde-vnc".to_owned();
    img
}

/// Ties the ledger, the port allocator and the catalog together and makes
/// every admission, commit and compensation decision of the container
/// lifecycle.
pub struct Orchestrator {
    pub ledger: CreditLedger,
    pub ports: PortAllocator,
    pub catalog: ContainerCatalog,
    pub plan_limit: usize,
}

/// An ascii letter or digit.
pub open spec fn spec_alphanumeric(c: char) -> bool {
    ('a' <= c <= 'z') || ('A' <= c <= 'Z') || ('0' <= c <= '9')
}

/// Relies on rand's `Alphanumeric` distribution over its thread-local
/// generator: sampling a string of length `len` produces exactly `len` ascii
/// letters and digits, whatever the random draws are.
#[verifier::external_body]
fn random_alphanumeric(len: usize) -> (r: String)
    ensures
        r@.len() == len,
        forall|i: int| 0 <= i < r@.len() ==> spec_alphanumeric(#[trigger] r@[i]),
{
    Alphanumeric.sample_string(&mut rand::rng(), len)
}

/// A fresh provisional identifier for a container about to be provisioned:
/// sixteen ascii letters and digits. The caller polls the catalog under this
/// name to observe the outcome of the detached provisioning work.
pub fn fresh_container_name() -> (r: String)
    ensures
        r@.len() == NAME_LENGTH,
        forall|i: int| 0 <= i < r@.len() ==> spec_alphanumeric(#[trigger] r@[i]),
{
    random_alphanumeric(NAME_LENGTH)
}

/// A container as the engine lists it: its runtime id and the names the
/// engine knows it under, each prefixed with a slash.
pub struct EngineListing {
    pub id: String,
    pub names: Vec<String>,
}

/// The listing carries this exact name among its names.
pub open spec fn spec_listed_under(l: EngineListing, key: Seq<char>) -> bool {
    exists|t: int| 0 <= t < l.names@.len() && l.names@[t]@ == key
}

fn names_contain(names: &Vec<String>, key: &String) -> (r: bool)
    ensures
        r == exists|t: int| 0 <= t < names@.len() && names@[t]@ == key@,
{
    let n = names.len();
    let mut t: usize = 0;
    while t < n
        invariant
            n == names@.len(),
            t <= n,
            forall|u: int| 0 <= u < t ==> names@[u]@ != key@,
        decreases n - t,
    {
        if names[t] == *key {
            return true;
        }
        t = t + 1;
    }
    false
}

/// Resolves a container name to its runtime id against the engine's listing:
/// the engine lists each container under `/name`, and the first listing that
/// carries the slash-prefixed name wins. No match means the engine does not
/// know the name.
#[verifier::loop_isolation(false)]
pub fn resolve_runtime_id(listings: &Vec<EngineListing>, name: &str) -> (r: Option<String>)
    ensures
        ({
            let key = "/"@ + name@;
            match r {
                Some(id) => exists|j: int|
                    {
                        &&& 0 <= j < listings@.len()
                        &&& spec_listed_under(#[trigger] listings@[j], key)
                        &&& id@ == listings@[j].id@
                        &&& forall|k: int| 0 <= k < j ==> !spec_listed_under(#[trigger] listings@[k], key)
                    },
                None => forall|j: int|
                    0 <= j < listings@.len() ==> !spec_listed_under(#[trigger] listings@[j], key),
            }
        }),
{
    let slash: String = "/".to_owned();
    let key: String = slash.concat(name);
    let n = listings.len();
    let mut j: usize = 0;
    while j < n
        invariant
            j <= n,
            key@ == "/"@ + name@,
            forall|k: int| 0 <= k < j ==> !spec_listed_under(#[trigger] listings@[k], "/"@ + name@),
        decreases n - j,
    {
        if names_contain(&listings[j].names, &key) {
            return Some(listings[j].id.clone());
        }
        j = j + 1;
    }
    None
}

/// The admission step: `post` is `pre` with exactly `price` debited from
/// `owner`'s balance and nothing else moved.
pub open spec fn spec_admitted(
    pre: Orchestrator,
    post: Orchestrator,
    owner: Seq<char>,
    price: int,
) -> bool {
    &&& post.ledger.balance_of(owner) == pre.ledger.balance_of(owner) - price
    &&& forall|v: Seq<char>| v != owner ==> post.ledger.balance_of(v) == pre.ledger.balance_of(v)
    &&& post.ports == pre.ports
    &&& post.catalog == pre.catalog
}

/// The leasing step: `post` is `pre` with exactly the fresh port `p` marked
/// leased and nothing else moved.
pub open spec fn spec_port_granted(pre: Orchestrator, post: Orchestrator, p: u16) -> bool {
    &&& !pre.ports.is_leased(p)
    &&& post.ports.is_leased(p)
    &&& forall|q: u16| q != p ==> post.ports.is_leased(q) == pre.ports.is_leased(q)
    &&& post.ports.leased_count() == pre.ports.leased_count() + 1
    &&& post.ledger == pre.ledger
    &&& post.catalog == pre.catalog
}

/// The compensation step: `post` is `pre` with `price` credited back to
/// `owner` and the lease on `p` gone, the catalog untouched.
pub open spec fn spec_compensated(
    pre: Orchestrator,
    post: Orchestrator,
    owner: Seq<char>,
    price: int,
    p: u16,
) -> bool {
    &&& post.ledger.balance_of(owner) == pre.ledger.balance_of(owner) + price
    &&& forall|v: Seq<char>| v != owner ==> post.ledger.balance_of(v) == pre.ledger.balance_of(v)
    &&& !post.ports.is_leased(p)
    &&& forall|q: u16| q != p ==> post.ports.is_leased(q) == pre.ports.is_leased(q)
    &&& pre.ports.is_leased(p) ==> post.ports.leased_count() == pre.ports.leased_count() - 1
    &&& post.catalog == pre.catalog
}

impl Orchestrator {
    /// Every component is well formed, and every port the catalog records is
    /// a range port whose lease is held: no two active records can share a
    /// port, and no record's port can be handed out again while the record
    /// lives.
    pub open spec fn inv(self) -> bool {
        &&& self.ledger.wf()
        &&& self.ports.wf()
        &&& self.catalog.wf()
        &&& forall|p: i64|
            #[trigger] self.catalog.port_used(p) ==> (PORT_RANGE_START as i64) <= p < (
            PORT_RANGE_END as i64) && self.ports.is_leased(p as u16)
    }

    pub fn new(plan_limit: usize) -> (o: Self)
        ensures
            o.inv(),
            o.plan_limit == plan_limit,
            forall|u: Seq<char>| o.ledger.balance_of(u) == 0,
            forall|p: u16| !o.ports.is_leased(p),
            forall|o2: Seq<char>, n: Seq<char>| !o.catalog.has(o2, n),
            forall|o2: Seq<char>| o.catalog.count_for(o2) == 0,
    {
        let o = Orchestrator {
            ledger: CreditLedger::new(),
            ports: PortAllocator::new(),
            catalog: ContainerCatalog::new(),
            plan_limit,
        };
        proof {
            assert forall|o2: Seq<char>| o.catalog.count_for(o2) == 0 by {
                assert(o.catalog.entries_seq().len() == 0);
            }
        }
        o
    }

    /// The owner's current credit balance; a user the ledger has never seen
    /// reads as zero, which is not an error.
    pub fn credit_balance(&self, owner: &String) -> (b: i64)
        requires
            self.inv(),
        ensures
            b == self.ledger.balance_of(owner@),
    {
        self.ledger.balance(owner)
    }

    /// The out-of-band administrative adjustment: overwrites the target's
    /// balance when the caller holds the admin right and the target exists.
    /// A valid identity without the right is refused `Forbidden`, which is
    /// distinct from `Unauthorized`; an unknown target is a bad request.
    pub fn admin_set_credits(
        &mut self,
        caller_is_admin: bool,
        target_exists: bool,
        target: &String,
        credits: i64,
    ) -> (r: Result<(), ApiError>)
        requires
            old(self).inv(),
        ensures
            final(self).inv(),
            final(self).ports == old(self).ports,
            final(self).catalog == old(self).catalog,
            final(self).plan_limit == old(self).plan_limit,
            match r {
                Ok(()) => {
                    &&& caller_is_admin
                    &&& target_exists
                    &&& final(self).ledger.balance_of(target@) == credits
                    &&& forall|v: Seq<char>|
                        v != target@ ==> final(self).ledger.balance_of(v)
                            == old(self).ledger.balance_of(v)
                },
                Err(e) => {
                    &&& final(self).ledger == old(self).ledger
                    &&& (!caller_is_admin || !target_exists)
                    &&& (e == ApiError::Forbidden <==> !caller_is_admin)
                    &&& (e == ApiError::BadRequest <==> caller_is_admin && !target_exists)
                },
            },
    {
        if !caller_is_admin {
            return Err(ApiError::Forbidden);
        }
        if !target_exists {
            return Err(ApiError::BadRequest);
        }
        self.ledger.set_credits(target, credits);
        Ok(())
    }

    /// Admits or refuses a creation request before any external work: the
    /// plan limit first, then the price, then the atomic reservation. A
    /// refusal leaves no side effect at all; an admission debits exactly the
    /// price and nothing more.
    pub fn admit_create(&mut self, owner: &String, resources: &ContainerResources) -> (r: Result<
        i64,
        ApiError,
    >)
        requires
            old(self).inv(),
        ensures
            final(self).inv(),
            final(self).ports == old(self).ports,
            final(self).catalog == old(self).catalog,
            final(self).plan_limit == old(self).plan_limit,
            match r {
                Ok(price) => {
                    &&& spec_resources_bounded(*resources)
                    &&& old(self).catalog.count_for(owner@) < old(self).plan_limit
                    &&& price == spec_price(*resources)
                    &&& old(self).ledger.balance_of(owner@) >= price
                    &&& spec_admitted(*old(self), *final(self), owner@, price as int)
                },
                Err(e) => {
                    &&& final(self).ledger == old(self).ledger
                    &&& (!spec_resources_bounded(*resources) || old(self).catalog.count_for(owner@)
                        >= old(self).plan_limit || old(self).ledger.balance_of(owner@) < spec_price(
                        *resources,
                    ))
                    &&& (e == ApiError::BadRequest <==> !spec_resources_bounded(*resources))
                    &&& (e == ApiError::ContainerLimitReached <==> spec_resources_bounded(
                        *resources,
                    ) && old(self).catalog.count_for(owner@) >= old(self).plan_limit)
                    &&& (e == ApiError::InsufficientCredits <==> spec_resources_bounded(*resources)
                        && old(self).catalog.count_for(owner@) < old(self).plan_limit && old(
                        self,
                    ).ledger.balance_of(owner@) < spec_price(*resources))
                },
            },
    {
        if !resources.within_bounds() {
            return Err(ApiError::BadRequest);
        }
        let count = self.catalog.count_owned(owner);
        if count >= self.plan_limit {
            return Err(ApiError::ContainerLimitReached);
        }
        let price = resources.calculate_price();
        if self.ledger.reserve_and_debit(owner, price) {
            Ok(price)
        } else {
            Err(ApiError::InsufficientCredits)
        }
    }

    /// Leases a port for an admitted request. When the range is exhausted
    /// the reservation is credited straight back — the admission's only side
    /// effect is undone — and the request fails with `PortExhausted`.
    pub fn begin_provision(&mut self, owner: &String, price: i64) -> (r: Result<u16, ApiError>)
        requires
            old(self).inv(),
            0 <= price,
            old(self).ledger.balance_of(owner@) + price <= i64::MAX,
        ensures
            final(self).inv(),
            final(self).catalog == old(self).catalog,
            final(self).plan_limit == old(self).plan_limit,
            match r {
                Ok(p) => {
                    &&& spec_port_in_range(p)
                    &&& spec_port_granted(*old(self), *final(self), p)
                },
                Err(e) => {
                    &&& e == ApiError::PortExhausted
                    &&& final(self).ports == old(self).ports
                    &&& forall|p: u16| spec_port_in_range(p) ==> old(self).ports.is_leased(p)
                    &&& final(self).ledger.balance_of(owner@) == old(self).ledger.balance_of(
                        owner@,
                    ) + price
                    &&& forall|v: Seq<char>|
                        v != owner@ ==> final(self).ledger.balance_of(v)
                            == old(self).ledger.balance_of(v)
                },
            },
    {
        match self.ports.lease() {
            Some(p) => Ok(p),
            None => {
                self.ledger.credit(owner, price);
                Err(ApiError::PortExhausted)
            },
        }
    }

    /// Undoes an admitted, port-leased creation whose engine work failed:
    /// releases the port and credits the full reservation back, in reverse
    /// order of acquisition. When the engine's create had succeeded and only
    /// the start failed, the caller additionally asks the engine to delete
    /// the half-made container, best effort. The catalog was never touched,
    /// so after this step no trace of the request remains.
    pub fn compensate_create_failure(&mut self, owner: &String, price: i64, port: u16)
        requires
            old(self).inv(),
            0 <= price,
            old(self).ledger.balance_of(owner@) + price <= i64::MAX,
            !old(self).catalog.port_used(port as i64),
        ensures
            final(self).inv(),
            final(self).catalog == old(self).catalog,
            final(self).plan_limit == old(self).plan_limit,
            spec_compensated(*old(self), *final(self), owner@, price as int, port),
    {
        self.ports.release(port);
        self.ledger.credit(owner, price);
    }

    /// Commits a provisioned, started container to the catalog under state
    /// `Running`. The record is accepted only if its port is a leased range
    /// port no other record holds and its name is free within the owner;
    /// otherwise nothing changes and the commit fails.
    pub fn commit_running(&mut self, owner: &String, container: Container) -> (r: Result<
        (),
        ApiError,
    >)
        requires
            old(self).inv(),
        ensures
            final(self).inv(),
            final(self).ledger == old(self).ledger,
            final(self).ports == old(self).ports,
            final(self).plan_limit == old(self).plan_limit,
            match r {
                Ok(()) => {
                    &&& (PORT_RANGE_START as i64) <= container.port < (PORT_RANGE_END as i64)
                    &&& old(self).ports.is_leased(container.port as u16)
                    &&& !old(self).catalog.port_used(container.port)
                    &&& !old(self).catalog.has(owner@, container.name@)
                    &&& final(self).catalog.has(owner@, container.name@)
                    &&& final(self).catalog.record_of(owner@, container.name@).container
                        == container
                    &&& final(self).catalog.record_of(owner@, container.name@).state
                        == LifecycleState::Running
                    &&& final(self).catalog.count_for(owner@) == old(self).catalog.count_for(
                        owner@,
                    ) + 1
                    &&& forall|o: Seq<char>|
                        o != owner@ ==> final(self).catalog.count_for(o)
                            == old(self).catalog.count_for(o)
                    &&& forall|o: Seq<char>, n: Seq<char>|
                        !(o == owner@ && n == container.name@) ==> final(self).catalog.has(o, n)
                            == old(self).catalog.has(o, n)
                },
                Err(e) => {
                    &&& final(self).catalog == old(self).catalog
                    &&& e == ApiError::OperationFailed
                    &&& !((PORT_RANGE_START as i64) <= container.port < (PORT_RANGE_END as i64)
                        && old(self).ports.is_leased(container.port as u16) && !old(
                        self,
                    ).catalog.port_used(container.port) && !old(self).catalog.has(
                        owner@,
                        container.name@,
                    ))
                },
            },
    {
        if !(container.port >= PORT_RANGE_START as i64 && container.port < PORT_RANGE_END as i64) {
            return Err(ApiError::OperationFailed);
        }
        if !self.ports.holds_lease(container.port as u16) {
            return Err(ApiError::OperationFailed);
        }
        if self.catalog.uses_port(container.port) {
            return Err(ApiError::OperationFailed);
        }
        if self.catalog.contains(owner, &container.name) {
            return Err(ApiError::OperationFailed);
        }
        let entry = CatalogEntry {
            owner: owner.clone(),
            state: LifecycleState::Running,
            container,
        };
        self.catalog.insert(entry);
        Ok(())
    }

    /// The owner-scoped lookup behind start, stop and delete: a record is
    /// found only under its own owner, so one user's request can never see
    /// another user's container of the same name.
    pub fn find_owned(&self, owner: &String, name: &String) -> (r: Option<Container>)
        requires
            self.inv(),
        ensures
            match r {
                Some(c) => self.catalog.has(owner@, name@) && c == self.catalog.record_of(
                    owner@,
                    name@,
                ).container,
                None => !self.catalog.has(owner@, name@),
            },
    {
        self.catalog.find_container(owner, name)
    }

    /// Records that the engine stopped the container. Only a running
    /// container can stop; the record keeps its port and its place — a
    /// stopped container is resumable and still occupies its lease.
    pub fn mark_stopped(&mut self, owner: &String, name: &String) -> (r: Result<(), ApiError>)
        requires
            old(self).inv(),
        ensures
            final(self).inv(),
            final(self).ledger == old(self).ledger,
            final(self).ports == old(self).ports,
            final(self).plan_limit == old(self).plan_limit,
            match r {
                Ok(()) => {
                    &&& old(self).catalog.has(owner@, name@)
                    &&& old(self).catalog.record_of(owner@, name@).state == LifecycleState::Running
                    &&& final(self).catalog.has(owner@, name@)
                    &&& final(self).catalog.record_of(owner@, name@).state
                        == LifecycleState::Stopped
                    &&& final(self).catalog.record_of(owner@, name@).container == old(
                        self,
                    ).catalog.record_of(owner@, name@).container
                    &&& forall|o: Seq<char>, n: Seq<char>|
                        !(o == owner@ && n == name@) ==> final(self).catalog.has(o, n) == old(
                            self,
                        ).catalog.has(o, n)
                    &&& forall|o: Seq<char>| final(self).catalog.count_for(o) == old(
                        self,
                    ).catalog.count_for(o)
                },
                Err(e) => {
                    &&& final(self).catalog == old(self).catalog
                    &&& (!old(self).catalog.has(owner@, name@) || old(self).catalog.record_of(
                        owner@,
                        name@,
                    ).state != LifecycleState::Running)
                    &&& (e == ApiError::NameNotFound <==> !old(self).catalog.has(owner@, name@))
                    &&& (e == ApiError::OperationFailed <==> old(self).catalog.has(owner@, name@)
                        && old(self).catalog.record_of(owner@, name@).state
                        != LifecycleState::Running)
                },
            },
    {
        self.transition(owner, name, LifecycleState::Running, LifecycleState::Stopped)
    }

    /// Records that the engine started the container again. Only a stopped
    /// container can resume; everything but the state stands.
    pub fn mark_running(&mut self, owner: &String, name: &String) -> (r: Result<(), ApiError>)
        requires
            old(self).inv(),
        ensures
            final(self).inv(),
            final(self).ledger == old(self).ledger,
            final(self).ports == old(self).ports,
            final(self).plan_limit == old(self).plan_limit,
            match r {
                Ok(()) => {
                    &&& old(self).catalog.has(owner@, name@)
                    &&& old(self).catalog.record_of(owner@, name@).state == LifecycleState::Stopped
                    &&& final(self).catalog.has(owner@, name@)
                    &&& final(self).catalog.record_of(owner@, name@).state
                        == LifecycleState::Running
                    &&& final(self).catalog.record_of(owner@, name@).container == old(
                        self,
                    ).catalog.record_of(owner@, name@).container
                    &&& forall|o: Seq<char>, n: Seq<char>|
                        !(o == owner@ && n == name@) ==> final(self).catalog.has(o, n) == old(
                            self,
                        ).catalog.has(o, n)
                    &&& forall|o: Seq<char>| final(self).catalog.count_for(o) == old(
                        self,
                    ).catalog.count_for(o)
                },
                Err(e) => {
                    &&& final(self).catalog == old(self).catalog
                    &&& (!old(self).catalog.has(owner@, name@) || old(self).catalog.record_of(
                        owner@,
                        name@,
                    ).state != LifecycleState::Stopped)
                    &&& (e == ApiError::NameNotFound <==> !old(self).catalog.has(owner@, name@))
                    &&& (e == ApiError::OperationFailed <==> old(self).catalog.has(owner@, name@)
                        && old(self).catalog.record_of(owner@, name@).state
                        != LifecycleState::Stopped)
                },
            },
    {
        self.transition(owner, name, LifecycleState::Stopped, LifecycleState::Running)
    }

    /// The shared state transition: from exactly `from` to `to`, touching
    /// nothing but that one record's state.
    fn transition(
        &mut self,
        owner: &String,
        name: &String,
        from: LifecycleState,
        to: LifecycleState,
    ) -> (r: Result<(), ApiError>)
        requires
            old(self).inv(),
        ensures
            final(self).inv(),
            final(self).ledger == old(self).ledger,
            final(self).ports == old(self).ports,
            final(self).plan_limit == old(self).plan_limit,
            match r {
                Ok(()) => {
                    &&& old(self).catalog.has(owner@, name@)
                    &&& old(self).catalog.record_of(owner@, name@).state == from
                    &&& final(self).catalog.has(owner@, name@)
                    &&& final(self).catalog.record_of(owner@, name@).state == to
                    &&& final(self).catalog.record_of(owner@, name@).container == old(
                        self,
                    ).catalog.record_of(owner@, name@).container
                    &&& forall|o: Seq<char>, n: Seq<char>|
                        !(o == owner@ && n == name@) ==> final(self).catalog.has(o, n) == old(
                            self,
                        ).catalog.has(o, n)
                    &&& forall|o: Seq<char>| final(self).catalog.count_for(o) == old(
                        self,
                    ).catalog.count_for(o)
                },
                Err(e) => {
                    &&& final(self).catalog == old(self).catalog
                    &&& (!old(self).catalog.has(owner@, name@) || old(self).catalog.record_of(
                        owner@,
                        name@,
                    ).state != from)
                    &&& (e == ApiError::NameNotFound <==> !old(self).catalog.has(owner@, name@))
                    &&& (e == ApiError::OperationFailed <==> old(self).catalog.has(owner@, name@)
                        && old(self).catalog.record_of(owner@, name@).state != from)
                },
            },
    {
        match self.catalog.state_of(owner, name) {
            None => Err(ApiError::NameNotFound),
            Some(s) => {
                if s == from {
                    self.catalog.set_state(owner, name, to);
                    Ok(())
                } else {
                    Err(ApiError::OperationFailed)
                }
            },
        }
    }

    /// Finishes a delete after the engine has removed the container: frees
    /// the record and its port lease in one step. Delete is the only
    /// operation that frees them. Deleting a name the owner does not hold is
    /// `NameNotFound` and mutates nothing at all, so a repeated delete is
    /// harmless.
    pub fn complete_delete(&mut self, owner: &String, name: &String) -> (r: Result<u16, ApiError>)
        requires
            old(self).inv(),
        ensures
            final(self).inv(),
            final(self).ledger == old(self).ledger,
            final(self).plan_limit == old(self).plan_limit,
            match r {
                Ok(p) => {
                    &&& old(self).catalog.has(owner@, name@)
                    &&& p as i64 == old(self).catalog.record_of(owner@, name@).container.port
                    &&& !final(self).catalog.has(owner@, name@)
                    &&& !final(self).catalog.port_used(p as i64)
                    &&& !final(self).ports.is_leased(p)
                    &&& forall|q: u16|
                        q != p ==> final(self).ports.is_leased(q) == old(self).ports.is_leased(q)
                    &&& final(self).ports.leased_count() == old(self).ports.leased_count() - 1
                    &&& forall|o: Seq<char>, n: Seq<char>|
                        !(o == owner@ && n == name@) ==> final(self).catalog.has(o, n) == old(
                            self,
                        ).catalog.has(o, n)
                    &&& final(self).catalog.count_for(owner@) == old(self).catalog.count_for(
                        owner@,
                    ) - 1
                    &&& forall|o: Seq<char>|
                        o != owner@ ==> final(self).catalog.count_for(o)
                            == old(self).catalog.count_for(o)
                },
                Err(e) => {
                    &&& e == ApiError::NameNotFound
                    &&& !old(self).catalog.has(owner@, name@)
                    &&& *final(self) == *old(self)
                },
            },
    {
        match self.catalog.remove(owner, name) {
            Some(c) => {
                proof {
                    assert(old(self).catalog.port_used(c.port));
                }
                let p = c.port as u16;
                self.ports.release(p);
                Ok(p)
            },
            None => Err(ApiError::NameNotFound),
        }
    }

    /// Every container the owner holds, in catalog order; an owner with none
    /// gets an empty listing, which is not an error.
    pub fn list_containers(&self, owner: &String) -> (r: Vec<Container>)
        requires
            self.inv(),
        ensures
            r@ == crate::catalog::spec_owned_by(self.catalog.entries_seq(), owner@),
            r@.len() == self.catalog.count_for(owner@),
    {
        self.catalog.list_owned(owner)
    }
}

/// No two active records hold the same leased port — in any state the
/// orchestrator's invariant admits, the ports of distinct catalog rows
/// differ.
pub proof fn lemma_port_uniqueness(o: Orchestrator)
    requires
        o.inv(),
    ensures
        forall|j: int, k: int|
            0 <= j < k < o.catalog.entries_seq().len() ==> o.catalog.entries_seq()[j].container.port
                != o.catalog.entries_seq()[k].container.port,
{
}

/// Two creation requests race for a balance that covers exactly one of them.
/// The reservations serialize: the first is granted, and the state it leaves
/// no longer covers the price, so the second is refused — never two
/// successes.
pub proof fn lemma_admission_race(
    s0: Orchestrator,
    s1: Orchestrator,
    owner: Seq<char>,
    price: int,
)
    requires
        s0.ledger.balance_of(owner) == price,
        price > 0,
        spec_admitted(s0, s1, owner, price),
    ensures
        s0.ledger.balance_of(owner) >= price,
        s1.ledger.balance_of(owner) < price,
{
}

/// If the engine's create fails after a successful credit reservation and
/// port lease, the compensation chain restores everything: every balance,
/// every lease and the count of free ports return to their pre-request
/// values, and the catalog never changed.
pub proof fn lemma_compensation_restores(
    s0: Orchestrator,
    s1: Orchestrator,
    s2: Orchestrator,
    s3: Orchestrator,
    owner: Seq<char>,
    price: int,
    p: u16,
)
    requires
        spec_admitted(s0, s1, owner, price),
        spec_port_granted(s1, s2, p),
        spec_compensated(s2, s3, owner, price, p),
    ensures
        forall|v: Seq<char>| s3.ledger.balance_of(v) == s0.ledger.balance_of(v),
        forall|q: u16| s3.ports.is_leased(q) == s0.ports.is_leased(q),
        s3.ports.leased_count() == s0.ports.leased_count(),
        s3.catalog == s0.catalog,
{
    assert forall|v: Seq<char>| s3.ledger.balance_of(v) == s0.ledger.balance_of(v) by {
        if v != owner {
            assert(s1.ledger.balance_of(v) == s0.ledger.balance_of(v));
            assert(s2.ledger.balance_of(v) == s1.ledger.balance_of(v));
            assert(s3.ledger.balance_of(v) == s2.ledger.balance_of(v));
        }
    }
    assert forall|q: u16| s3.ports.is_leased(q) == s0.ports.is_leased(q) by {
        if q != p {
            assert(s1.ports.is_leased(q) == s0.ports.is_leased(q));
        } else {
            assert(!s0.ports.is_leased(p));
            assert(!s3.ports.is_leased(p));
        }
    }
}

} // verus!
