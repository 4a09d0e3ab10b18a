//! The container catalog: the durable, per-owner record of provisioned
//! containers, authoritative for ownership and existence. Each record holds
//! the runtime id, the owner, a name unique within that owner, the resource
//! quantities, the leased port and the lifecycle state.

use vstd::prelude::*;

verus! {

/// A provisioned container as the catalog records and lists it.
pub struct Container {
    pub id: String,
    pub name: String,
    pub memory: i64,
    pub memory_swap: i64,
    pub cpu_shares: i64,
    pub cpu_cores: i64,
    pub port: i64,
}

impl Clone for Container {
    fn clone(&self) -> (r: Self)
        ensures
            r == *self,
    {
        Container {
            id: self.id.clone(),
            name: self.name.clone(),
            memory: self.memory,
            memory_swap: self.memory_swap,
            cpu_shares: self.cpu_shares,
            cpu_cores: self.cpu_cores,
            port: self.port,
        }
    }
}

/// Where a container stands in its life. A record enters the catalog already
/// `Running`; stop and start move it between `Running` and `Stopped`; delete
/// removes the record outright. `Failed` marks a provisioning that was
/// compensated after the fact.
#[derive(Clone, Copy, Debug, PartialEq, Eq, Structural)]
pub enum LifecycleState {
    Requested,
    Provisioning,
    Running,
    Stopped,
    Failed,
    Deleted,
}

/// One catalog row: a container together with its owner and state.
pub struct CatalogEntry {
    pub owner: String,
    pub state: LifecycleState,
    pub container: Container,
}

impl Clone for CatalogEntry {
    fn clone(&self) -> (r: Self)
        ensures
            r == *self,
    {
        CatalogEntry {
            owner: self.owner.clone(),
            state: self.state,
            container: self.container.clone(),
        }
    }
}

/// The single source of truth for what containers exist and who owns them.
pub struct ContainerCatalog {
    entries: Vec<CatalogEntry>,
}

/// How many of the entries belong to `owner`.
pub open spec fn spec_count_for(s: Seq<CatalogEntry>, owner: Seq<char>) -> int
    decreases s.len(),
{
    if s.len() == 0 {
        0
    } else {
        spec_count_for(s.drop_last(), owner) + if s.last().owner@ == owner {
            1 as int
        } else {
            0 as int
        }
    }
}

/// The containers among `s` that belong to `owner`, in catalog order.
pub open spec fn spec_owned_by(s: Seq<CatalogEntry>, owner: Seq<char>) -> Seq<Container>
    decreases s.len(),
{
    if s.len() == 0 {
        Seq::empty()
    } else if s.last().owner@ == owner {
        spec_owned_by(s.drop_last(), owner).push(s.last().container)
    } else {
        spec_owned_by(s.drop_last(), owner)
    }
}

/// An owner's listing has exactly as many containers as the owner has rows.
pub proof fn lemma_owned_by_len(s: Seq<CatalogEntry>, owner: Seq<char>)
    ensures
        spec_owned_by(s, owner).len() == spec_count_for(s, owner),
    decreases s.len(),
{
    if s.len() > 0 {
        lemma_owned_by_len(s.drop_last(), owner);
    }
}

/// Counting distributes over concatenation.
proof fn lemma_count_for_add(a: Seq<CatalogEntry>, b: Seq<CatalogEntry>, owner: Seq<char>)
    ensures
        spec_count_for(a + b, owner) == spec_count_for(a, owner) + spec_count_for(b, owner),
    decreases b.len(),
{
    if b.len() == 0 {
        assert(a + b =~= a);
    } else {
        lemma_count_for_add(a, b.drop_last(), owner);
        assert((a + b).drop_last() =~= a + b.drop_last());
        assert((a + b).last() == b.last());
    }
}

impl ContainerCatalog {
    pub closed spec fn entries_seq(self) -> Seq<CatalogEntry> {
        self.entries@
    }

    /// There is a record for this owner under this name.
    pub open spec fn has(self, owner: Seq<char>, name: Seq<char>) -> bool {
        exists|j: int|
            0 <= j < self.entries_seq().len() && self.entries_seq()[j].owner@ == owner
                && self.entries_seq()[j].container.name@ == name
    }

    pub open spec fn row_of(self, owner: Seq<char>, name: Seq<char>) -> int {
        choose|j: int|
            0 <= j < self.entries_seq().len() && self.entries_seq()[j].owner@ == owner
                && self.entries_seq()[j].container.name@ == name
    }

    /// The record held for this owner under this name.
    pub open spec fn record_of(self, owner: Seq<char>, name: Seq<char>) -> CatalogEntry {
        self.entries_seq()[self.row_of(owner, name)]
    }

    /// Some record holds this host port.
    pub open spec fn port_used(self, port: i64) -> bool {
        exists|j: int|
            0 <= j < self.entries_seq().len() && self.entries_seq()[j].container.port == port
    }

    pub open spec fn count_for(self, owner: Seq<char>) -> int {
        spec_count_for(self.entries_seq(), owner)
    }

    /// No two records share an owner-and-name pair, and no two records share
    /// a port: the port-uniqueness invariant lives here.
    pub open spec fn wf(self) -> bool {
        forall|j: int, k: int|
            0 <= j < k < self.entries_seq().len() ==> {
                &&& !(self.entries_seq()[j].owner@ == self.entries_seq()[k].owner@
                    && self.entries_seq()[j].container.name@
                    == self.entries_seq()[k].container.name@)
                &&& self.entries_seq()[j].container.port != self.entries_seq()[k].container.port
            }
    }

    pub fn new() -> (c: Self)
        ensures
            c.wf(),
            c.entries_seq() =~= Seq::<CatalogEntry>::empty(),
            forall|o: Seq<char>, n: Seq<char>| !c.has(o, n),
            forall|p: i64| !c.port_used(p),
    {
        ContainerCatalog { entries: Vec::new() }
    }

    fn find(&self, owner: &String, name: &String) -> (r: Option<usize>)
        ensures
            match r {
                Some(i) => {
                    &&& i < self.entries_seq().len()
                    &&& self.entries_seq()[i as int].owner@ == owner@
                    &&& self.entries_seq()[i as int].container.name@ == name@
                },
                None => !self.has(owner@, name@),
            },
    {
        let n = self.entries.len();
        let mut i: usize = 0;
        while i < n
            invariant
                n == self.entries_seq().len(),
                i <= n,
                forall|j: int|
                    0 <= j < i ==> !(self.entries_seq()[j].owner@ == owner@
                        && self.entries_seq()[j].container.name@ == name@),
            decreases n - i,
        {
            if self.entries[i].owner == *owner && self.entries[i].container.name == *name {
                return Some(i);
            }
            i = i + 1;
        }
        None
    }

    /// Whether a record exists for this owner under this name; scoped
    /// strictly to the owner, so another user's container of the same name
    /// stays invisible.
    pub fn contains(&self, owner: &String, name: &String) -> (r: bool)
        ensures
            r == self.has(owner@, name@),
    {
        match self.find(owner, name) {
            Some(_) => true,
            None => false,
        }
    }

    /// Whether any record holds this host port.
    pub fn uses_port(&self, port: i64) -> (r: bool)
        ensures
            r == self.port_used(port),
    {
        let n = self.entries.len();
        let mut i: usize = 0;
        while i < n
            invariant
                n == self.entries_seq().len(),
                i <= n,
                forall|j: int| 0 <= j < i ==> self.entries_seq()[j].container.port != port,
            decreases n - i,
        {
            if self.entries[i].container.port == port {
                return true;
            }
            i = i + 1;
        }
        false
    }

    /// Number of records owned by `owner`.
    #[verifier::loop_isolation(false)]
    pub fn count_owned(&self, owner: &String) -> (r: usize)
        ensures
            r == self.count_for(owner@),
    {
        let n = self.entries.len();
        let mut count: usize = 0;
        let mut i: usize = 0;
        while i < n
            invariant
                i <= n,
                count <= i,
                count == spec_count_for(self.entries_seq().take(i as int), owner@),
            decreases n - i,
        {
            proof {
                assert(self.entries_seq().take(i + 1).drop_last() =~= self.entries_seq().take(
                    i as int,
                ));
                assert(self.entries_seq().take(i + 1).last() == self.entries_seq()[i as int]);
            }
            if self.entries[i].owner == *owner {
                count = count + 1;
            }
            i = i + 1;
        }
        proof {
            assert(self.entries_seq().take(n as int) =~= self.entries_seq());
        }
        count
    }

    /// Adds a record. The caller has already ruled out a name clash within
    /// the owner and a port clash with any record, so well-formedness is
    /// preserved; nothing else about the catalog changes.
    #[verifier::loop_isolation(false)]
    pub fn insert(&mut self, entry: CatalogEntry)
        requires
            old(self).wf(),
            !old(self).has(entry.owner@, entry.container.name@),
            !old(self).port_used(entry.container.port),
        ensures
            final(self).wf(),
            final(self).entries_seq() =~= old(self).entries_seq().push(entry),
            final(self).has(entry.owner@, entry.container.name@),
            final(self).record_of(entry.owner@, entry.container.name@) == entry,
            final(self).port_used(entry.container.port),
            forall|o: Seq<char>, n: Seq<char>|
                !(o == entry.owner@ && n == entry.container.name@) ==> final(self).has(o, n)
                    == old(self).has(o, n),
            forall|o: Seq<char>, n: Seq<char>|
                !(o == entry.owner@ && n == entry.container.name@) && old(self).has(o, n)
                    ==> final(self).record_of(o, n) == old(self).record_of(o, n),
            forall|p: i64|
                p != entry.container.port ==> final(self).port_used(p) == old(self).port_used(p),
            final(self).count_for(entry.owner@) == old(self).count_for(entry.owner@) + 1,
            forall|o: Seq<char>|
                o != entry.owner@ ==> final(self).count_for(o) == old(self).count_for(o),
    {
        let ghost pre = *self;
        self.entries.push(entry);
        proof {
            let n = pre.entries_seq().len() as int;
            assert(self.entries_seq().drop_last() =~= pre.entries_seq());
            assert forall|j: int, k: int| 0 <= j < k < self.entries_seq().len() implies {
                &&& !(self.entries_seq()[j].owner@ == self.entries_seq()[k].owner@
                    && self.entries_seq()[j].container.name@
                    == self.entries_seq()[k].container.name@)
                &&& self.entries_seq()[j].container.port != self.entries_seq()[k].container.port
            } by {
                if k < n {
                    assert(pre.entries_seq()[j] == self.entries_seq()[j]);
                    assert(pre.entries_seq()[k] == self.entries_seq()[k]);
                } else {
                    assert(self.entries_seq()[k] == entry);
                    if pre.entries_seq()[j].owner@ == entry.owner@
                        && pre.entries_seq()[j].container.name@ == entry.container.name@ {
                        assert(pre.has(entry.owner@, entry.container.name@));
                    }
                    if pre.entries_seq()[j].container.port == entry.container.port {
                        assert(pre.port_used(entry.container.port));
                    }
                }
            }
            assert(self.entries_seq()[n] == entry);
            lemma_catalog_row_determined(*self, entry.owner@, entry.container.name@, n);
            assert forall|o: Seq<char>, n2: Seq<char>|
                !(o == entry.owner@ && n2 == entry.container.name@) implies self.has(o, n2)
                == pre.has(o, n2) by {
                lemma_catalog_unchanged_pair(pre, *self, entry, o, n2);
            }
            assert forall|o: Seq<char>, n2: Seq<char>|
                !(o == entry.owner@ && n2 == entry.container.name@) && pre.has(o, n2)
                implies self.record_of(o, n2) == pre.record_of(o, n2) by {
                lemma_catalog_unchanged_pair(pre, *self, entry, o, n2);
            }
            assert forall|p: i64| p != entry.container.port implies self.port_used(p)
                == pre.port_used(p) by {
                if pre.port_used(p) {
                    let j = choose|j: int|
                        0 <= j < pre.entries_seq().len() && pre.entries_seq()[j].container.port
                            == p;
                    assert(self.entries_seq()[j].container.port == p);
                } else if self.port_used(p) {
                    let j = choose|j: int|
                        0 <= j < self.entries_seq().len() && self.entries_seq()[j].container.port
                            == p;
                    assert(j < n);
                }
            }
            assert(self.entries_seq().drop_last() =~= pre.entries_seq());
            assert forall|o: Seq<char>|
                o != entry.owner@ implies self.count_for(o) == pre.count_for(o) by {}
        }
    }

    /// Removes the record held for this owner under this name and hands it
    /// back; when there is none, reports that and leaves every record, every
    /// name and every port exactly as it was.
    #[verifier::loop_isolation(false)]
    pub fn remove(&mut self, owner: &String, name: &String) -> (r: Option<Container>)
        requires
            old(self).wf(),
        ensures
            final(self).wf(),
            match r {
                Some(c) => {
                    &&& old(self).has(owner@, name@)
                    &&& c == old(self).record_of(owner@, name@).container
                    &&& !final(self).has(owner@, name@)
                    &&& !final(self).port_used(c.port)
                    &&& forall|o: Seq<char>, n2: Seq<char>|
                        !(o == owner@ && n2 == name@) ==> final(self).has(o, n2) == old(self).has(
                            o,
                            n2,
                        )
                    &&& forall|o: Seq<char>, n2: Seq<char>|
                        (!(o == owner@ && n2 == name@) && old(self).has(o, n2))
                            ==> final(self).record_of(o, n2) == old(self).record_of(o, n2)
                    &&& forall|p: i64|
                        p != c.port ==> final(self).port_used(p) == old(self).port_used(p)
                    &&& final(self).count_for(owner@) == old(self).count_for(owner@) - 1
                    &&& forall|o: Seq<char>|
                        o != owner@ ==> final(self).count_for(o) == old(self).count_for(o)
                },
                None => {
                    &&& !old(self).has(owner@, name@)
                    &&& *final(self) == *old(self)
                },
            },
    {
        match self.find(owner, name) {
            Some(i) => {
                let ghost pre = *self;
                let entry = self.entries.remove(i);
                proof {
                    lemma_catalog_remove(pre, *self, i as int, owner@, name@);
                }
                Some(entry.container)
            },
            None => None,
        }
    }

    /// A copy of the container held for this owner under this name.
    pub fn find_container(&self, owner: &String, name: &String) -> (r: Option<Container>)
        requires
            self.wf(),
        ensures
            match r {
                Some(c) => self.has(owner@, name@) && c == self.record_of(
                    owner@,
                    name@,
                ).container,
                None => !self.has(owner@, name@),
            },
    {
        match self.find(owner, name) {
            Some(i) => {
                proof {
                    lemma_catalog_row_determined(*self, owner@, name@, i as int);
                }
                Some(self.entries[i].container.clone())
            },
            None => None,
        }
    }

    /// The lifecycle state of the record held for this owner under this
    /// name.
    pub fn state_of(&self, owner: &String, name: &String) -> (r: Option<LifecycleState>)
        requires
            self.wf(),
        ensures
            match r {
                Some(s) => self.has(owner@, name@) && s == self.record_of(owner@, name@).state,
                None => !self.has(owner@, name@),
            },
    {
        match self.find(owner, name) {
            Some(i) => {
                proof {
                    lemma_catalog_row_determined(*self, owner@, name@, i as int);
                }
                Some(self.entries[i].state)
            },
            None => None,
        }
    }

    /// Moves the record held for this owner under this name to the given
    /// lifecycle state and reports whether such a record existed; no name,
    /// port, owner or balance-relevant fact changes either way.
    pub fn set_state(&mut self, owner: &String, name: &String, state: LifecycleState) -> (r: bool)
        requires
            old(self).wf(),
        ensures
            final(self).wf(),
            r == old(self).has(owner@, name@),
            !r ==> *final(self) == *old(self),
            r ==> {
                &&& final(self).has(owner@, name@)
                &&& final(self).record_of(owner@, name@).state == state
                &&& final(self).record_of(owner@, name@).container == old(self).record_of(
                    owner@,
                    name@,
                ).container
                &&& forall|o: Seq<char>, n2: Seq<char>|
                    !(o == owner@ && n2 == name@) ==> final(self).has(o, n2) == old(self).has(
                        o,
                        n2,
                    )
                &&& forall|o: Seq<char>, n2: Seq<char>|
                    (!(o == owner@ && n2 == name@) && old(self).has(o, n2))
                        ==> final(self).record_of(o, n2) == old(self).record_of(o, n2)
                &&& forall|p: i64| final(self).port_used(p) == old(self).port_used(p)
                &&& forall|o: Seq<char>| final(self).count_for(o) == old(self).count_for(o)
            },
    {
        match self.find(owner, name) {
            Some(i) => {
                let ghost pre = *self;
                self.entries[i].state = state;
                proof {
                    lemma_catalog_restate(pre, *self, i as int, owner@, name@);
                }
                true
            },
            None => false,
        }
    }

    /// The containers owned by `owner`, in catalog order; an owner with no
    /// containers gets the empty sequence, which is not an error.
    #[verifier::loop_isolation(false)]
    pub fn list_owned(&self, owner: &String) -> (r: Vec<Container>)
        ensures
            r@ == spec_owned_by(self.entries_seq(), owner@),
            r@.len() == self.count_for(owner@),
    {
        proof {
            lemma_owned_by_len(self.entries_seq(), owner@);
        }
        let n = self.entries.len();
        let mut r: Vec<Container> = Vec::new();
        let mut i: usize = 0;
        while i < n
            invariant
                i <= n,
                r@ == spec_owned_by(self.entries_seq().take(i as int), owner@),
            decreases n - i,
        {
            proof {
                assert(self.entries_seq().take(i + 1).drop_last() =~= self.entries_seq().take(
                    i as int,
                ));
                assert(self.entries_seq().take(i + 1).last() == self.entries_seq()[i as int]);
            }
            if self.entries[i].owner == *owner {
                r.push(self.entries[i].container.clone());
            }
            i = i + 1;
        }
        proof {
            assert(self.entries_seq().take(n as int) =~= self.entries_seq());
        }
        r
    }
}

/// In a well-formed catalog the row of an owner-and-name pair is determined.
proof fn lemma_catalog_row_determined(
    c: ContainerCatalog,
    owner: Seq<char>,
    name: Seq<char>,
    i: int,
)
    requires
        c.wf(),
        0 <= i < c.entries_seq().len(),
        c.entries_seq()[i].owner@ == owner,
        c.entries_seq()[i].container.name@ == name,
    ensures
        c.has(owner, name),
        c.row_of(owner, name) == i,
        c.record_of(owner, name) == c.entries_seq()[i],
{
    assert(c.has(owner, name));
    let j = c.row_of(owner, name);
    if j != i {
        if j < i {
            assert(!(c.entries_seq()[j].owner@ == c.entries_seq()[i].owner@
                && c.entries_seq()[j].container.name@ == c.entries_seq()[i].container.name@));
        } else {
            assert(!(c.entries_seq()[i].owner@ == c.entries_seq()[j].owner@
                && c.entries_seq()[i].container.name@ == c.entries_seq()[j].container.name@));
        }
    }
}

/// After a push, every owner-and-name pair other than the pushed one resolves
/// exactly as before.
proof fn lemma_catalog_unchanged_pair(
    pre: ContainerCatalog,
    post: ContainerCatalog,
    entry: CatalogEntry,
    o: Seq<char>,
    n2: Seq<char>,
)
    requires
        pre.wf(),
        post.wf(),
        post.entries_seq() =~= pre.entries_seq().push(entry),
        !(o == entry.owner@ && n2 == entry.container.name@),
    ensures
        post.has(o, n2) == pre.has(o, n2),
        pre.has(o, n2) ==> post.record_of(o, n2) == pre.record_of(o, n2),
{
    let n = pre.entries_seq().len() as int;
    if pre.has(o, n2) {
        let j = pre.row_of(o, n2);
        assert(post.entries_seq()[j] == pre.entries_seq()[j]);
        lemma_catalog_row_determined(post, o, n2, j);
        lemma_catalog_row_determined(pre, o, n2, j);
    } else {
        if post.has(o, n2) {
            let j = post.row_of(o, n2);
            assert(j < n || post.entries_seq()[j] == entry);
            if j < n {
                assert(pre.entries_seq()[j] == post.entries_seq()[j]);
            }
        }
    }
}

/// Removing one row deletes exactly that owner-and-name pair and frees
/// exactly its port; every other pair, port and owner count is untouched.
proof fn lemma_catalog_remove(
    pre: ContainerCatalog,
    post: ContainerCatalog,
    i: int,
    owner: Seq<char>,
    name: Seq<char>,
)
    requires
        pre.wf(),
        0 <= i < pre.entries_seq().len(),
        pre.entries_seq()[i].owner@ == owner,
        pre.entries_seq()[i].container.name@ == name,
        post.entries_seq() =~= pre.entries_seq().remove(i),
    ensures
        post.wf(),
        pre.has(owner, name),
        pre.record_of(owner, name) == pre.entries_seq()[i],
        !post.has(owner, name),
        !post.port_used(pre.entries_seq()[i].container.port),
        forall|o: Seq<char>, n2: Seq<char>|
            !(o == owner && n2 == name) ==> post.has(o, n2) == pre.has(o, n2),
        forall|o: Seq<char>, n2: Seq<char>|
            !(o == owner && n2 == name) && pre.has(o, n2) ==> post.record_of(o, n2)
                == pre.record_of(o, n2),
        forall|p: i64|
            p != pre.entries_seq()[i].container.port ==> post.port_used(p) == pre.port_used(p),
        post.count_for(owner) == pre.count_for(owner) - 1,
        forall|o: Seq<char>| o != owner ==> post.count_for(o) == pre.count_for(o),
{
    let s = pre.entries_seq();
    let port = s[i].container.port;
    lemma_catalog_row_determined(pre, owner, name, i);
    assert forall|j: int, k: int| 0 <= j < k < post.entries_seq().len() implies {
        &&& !(post.entries_seq()[j].owner@ == post.entries_seq()[k].owner@
            && post.entries_seq()[j].container.name@ == post.entries_seq()[k].container.name@)
        &&& post.entries_seq()[j].container.port != post.entries_seq()[k].container.port
    } by {
        let j2: int = if j < i {
            j
        } else {
            j + 1
        };
        let k2: int = if k < i {
            k
        } else {
            k + 1
        };
        assert(post.entries_seq()[j] == s[j2]);
        assert(post.entries_seq()[k] == s[k2]);
    }
    assert(!post.has(owner, name)) by {
        if post.has(owner, name) {
            let j = post.row_of(owner, name);
            let j2: int = if j < i {
                j
            } else {
                j + 1
            };
            assert(post.entries_seq()[j] == s[j2]);
            assert(j2 != i);
            if j2 < i {
                assert(!(s[j2].owner@ == s[i].owner@ && s[j2].container.name@
                    == s[i].container.name@));
            } else {
                assert(!(s[i].owner@ == s[j2].owner@ && s[i].container.name@
                    == s[j2].container.name@));
            }
        }
    }
    assert(!post.port_used(port)) by {
        if post.port_used(port) {
            let j = choose|j: int|
                0 <= j < post.entries_seq().len() && post.entries_seq()[j].container.port == port;
            let j2: int = if j < i {
                j
            } else {
                j + 1
            };
            assert(post.entries_seq()[j] == s[j2]);
            assert(j2 != i);
            if j2 < i {
                assert(s[j2].container.port != s[i].container.port);
            } else {
                assert(s[i].container.port != s[j2].container.port);
            }
        }
    }
    assert forall|o: Seq<char>, n2: Seq<char>| !(o == owner && n2 == name) implies post.has(o, n2)
        == pre.has(o, n2) by {
        if pre.has(o, n2) {
            let j = pre.row_of(o, n2);
            assert(j != i);
            let j3: int = if j < i {
                j
            } else {
                j - 1
            };
            assert(post.entries_seq()[j3] == s[j]);
            assert(post.has(o, n2));
        } else if post.has(o, n2) {
            let j = post.row_of(o, n2);
            let j2: int = if j < i {
                j
            } else {
                j + 1
            };
            assert(post.entries_seq()[j] == s[j2]);
            assert(pre.has(o, n2));
        }
    }
    assert forall|o: Seq<char>, n2: Seq<char>|
        !(o == owner && n2 == name) && pre.has(o, n2) implies post.record_of(o, n2)
        == pre.record_of(o, n2) by {
        let j = pre.row_of(o, n2);
        lemma_catalog_row_determined(pre, o, n2, j);
        assert(j != i);
        let j3: int = if j < i {
            j
        } else {
            j - 1
        };
        assert(post.entries_seq()[j3] == s[j]);
        lemma_catalog_row_determined(post, o, n2, j3);
    }
    assert forall|p: i64| p != port implies post.port_used(p) == pre.port_used(p) by {
        if pre.port_used(p) {
            let j = choose|j: int| 0 <= j < s.len() && s[j].container.port == p;
            assert(j != i);
            let j3: int = if j < i {
                j
            } else {
                j - 1
            };
            assert(post.entries_seq()[j3] == s[j]);
        } else if post.port_used(p) {
            let j = choose|j: int|
                0 <= j < post.entries_seq().len() && post.entries_seq()[j].container.port == p;
            let j2: int = if j < i {
                j
            } else {
                j + 1
            };
            assert(post.entries_seq()[j] == s[j2]);
        }
    }
    assert forall|o: Seq<char>| #[trigger] post.count_for(o) == pre.count_for(o) - (
    if o == owner {
        1 as int
    } else {
        0 as int
    }) by {
        lemma_count_for_add(s.take(i), s.skip(i + 1), o);
        lemma_count_for_add(s.take(i), seq![s[i]], o);
        lemma_count_for_add(s.take(i) + seq![s[i]], s.skip(i + 1), o);
        assert(post.entries_seq() =~= s.take(i) + s.skip(i + 1));
        assert(s =~= (s.take(i) + seq![s[i]]) + s.skip(i + 1));
        assert(spec_count_for(seq![s[i]], o) == if o == owner {
            1 as int
        } else {
            0 as int
        }) by {
            assert(seq![s[i]].drop_last() =~= Seq::<CatalogEntry>::empty());
            assert(seq![s[i]].last() == s[i]);
            assert(spec_count_for(Seq::<CatalogEntry>::empty(), o) == 0);
        }
    }
}

/// Sequences that agree on every row's owner field have the same counts for
/// every owner.
proof fn lemma_count_same_owners(a: Seq<CatalogEntry>, b: Seq<CatalogEntry>, owner: Seq<char>)
    requires
        a.len() == b.len(),
        forall|j: int| 0 <= j < a.len() ==> a[j].owner@ == b[j].owner@,
    ensures
        spec_count_for(a, owner) == spec_count_for(b, owner),
    decreases a.len(),
{
    if a.len() > 0 {
        lemma_count_same_owners(a.drop_last(), b.drop_last(), owner);
    }
}

/// After one row's state changes, every pair resolves to the same row as
/// before, every port is used exactly as before, and every count stands.
proof fn lemma_catalog_restate(
    pre: ContainerCatalog,
    post: ContainerCatalog,
    i: int,
    owner: Seq<char>,
    name: Seq<char>,
)
    requires
        pre.wf(),
        0 <= i < pre.entries_seq().len(),
        pre.entries_seq()[i].owner@ == owner,
        pre.entries_seq()[i].container.name@ == name,
        post.entries_seq().len() == pre.entries_seq().len(),
        post.entries_seq()[i].owner == pre.entries_seq()[i].owner,
        post.entries_seq()[i].container == pre.entries_seq()[i].container,
        forall|j: int|
            0 <= j < pre.entries_seq().len() && j != i ==> post.entries_seq()[j]
                == pre.entries_seq()[j],
    ensures
        post.wf(),
        post.has(owner, name),
        post.record_of(owner, name) == post.entries_seq()[i],
        pre.has(owner, name),
        pre.record_of(owner, name) == pre.entries_seq()[i],
        forall|o: Seq<char>, n2: Seq<char>|
            !(o == owner && n2 == name) ==> post.has(o, n2) == pre.has(o, n2),
        forall|o: Seq<char>, n2: Seq<char>|
            (!(o == owner && n2 == name) && pre.has(o, n2)) ==> post.record_of(o, n2)
                == pre.record_of(o, n2),
        forall|p: i64| post.port_used(p) == pre.port_used(p),
        forall|o: Seq<char>| post.count_for(o) == pre.count_for(o),
{
    assert forall|j: int|
        0 <= j < post.entries_seq().len() implies post.entries_seq()[j].owner@
        == pre.entries_seq()[j].owner@ && post.entries_seq()[j].container
        == pre.entries_seq()[j].container by {}
    assert forall|j: int, k: int| 0 <= j < k < post.entries_seq().len() implies {
        &&& !(post.entries_seq()[j].owner@ == post.entries_seq()[k].owner@
            && post.entries_seq()[j].container.name@ == post.entries_seq()[k].container.name@)
        &&& post.entries_seq()[j].container.port != post.entries_seq()[k].container.port
    } by {
        assert(!(pre.entries_seq()[j].owner@ == pre.entries_seq()[k].owner@
            && pre.entries_seq()[j].container.name@ == pre.entries_seq()[k].container.name@));
    }
    lemma_catalog_row_determined(pre, owner, name, i);
    lemma_catalog_row_determined(post, owner, name, i);
    assert forall|o: Seq<char>, n2: Seq<char>|
        !(o == owner && n2 == name) implies post.has(o, n2) == pre.has(o, n2) by {
        if pre.has(o, n2) {
            let j = pre.row_of(o, n2);
            assert(post.entries_seq()[j].owner@ == o && post.entries_seq()[j].container.name@
                == n2);
        } else if post.has(o, n2) {
            let j = post.row_of(o, n2);
            assert(pre.entries_seq()[j].owner@ == o && pre.entries_seq()[j].container.name@ == n2);
        }
    }
    assert forall|o: Seq<char>, n2: Seq<char>|
        (!(o == owner && n2 == name) && pre.has(o, n2)) implies post.record_of(o, n2)
        == pre.record_of(o, n2) by {
        let j = pre.row_of(o, n2);
        lemma_catalog_row_determined(pre, o, n2, j);
        assert(j != i);
        lemma_catalog_row_determined(post, o, n2, j);
    }
    assert forall|p: i64| post.port_used(p) == pre.port_used(p) by {
        if pre.port_used(p) {
            let j = choose|j: int|
                0 <= j < pre.entries_seq().len() && pre.entries_seq()[j].container.port == p;
            assert(post.entries_seq()[j].container.port == p);
        } else if post.port_used(p) {
            let j = choose|j: int|
                0 <= j < post.entries_seq().len() && post.entries_seq()[j].container.port == p;
            assert(pre.entries_seq()[j].container.port == p);
        }
    }
    assert forall|o: Seq<char>| #[trigger] post.count_for(o) == pre.count_for(o) by {
        lemma_count_same_owners(pre.entries_seq(), post.entries_seq(), o);
    }
}

/// Whether any of the given containers bears this name: the owner-scoped
/// existence check used before start, stop and delete.
pub fn container_exists(containers: &Vec<Container>, search_name: &str) -> (r: bool)
    ensures
        r == exists|j: int|
            0 <= j < containers@.len() && (#[trigger] containers@[j]).name@ == search_name@,
{
    let key: String = search_name.to_owned();
    let n = containers.len();
    let mut i: usize = 0;
    while i < n
        invariant
            n == containers@.len(),
            i <= n,
            key@ == search_name@,
            forall|j: int| 0 <= j < i ==> (#[trigger] containers@[j]).name@ != search_name@,
        decreases n - i,
    {
        if containers[i].name == key {
            return true;
        }
        i = i + 1;
    }
    false
}

} // verus!
