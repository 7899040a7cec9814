//! The network registry: which networks exist, who owns each, and which
//! channel belongs to which network.
use vstd::prelude::*;

verus! {

/// Why a registry operation was refused.
#[derive(PartialEq, Eq, Structural, Clone, Copy, Debug)]
pub enum RegistryError {
    /// No network of that name exists.
    NotFound,
    /// The network name is taken, or the channel already belongs to a network.
    Conflict,
    /// The requester does not own the network.
    Unauthorized,
}

/// One network row: its unique name and the user who created it.
pub struct Network {
    pub name: String,
    pub owner: i64,
}

/// One membership row: a channel and the name of its network.
pub struct Member {
    pub channel: i64,
    pub name: String,
}

/// What the registry holds, as maps.
pub ghost struct RegistryView {
    /// Each network's name, mapped to its owner.
    pub owners: Map<Seq<char>, i64>,
    /// Each member channel, mapped to the name of its network.
    pub routes: Map<i64, Seq<char>>,
}

impl RegistryView {
    pub open spec fn empty() -> RegistryView {
        RegistryView { owners: Map::empty(), routes: Map::empty() }
    }

    /// Every member channel routes to a network that exists.
    pub open spec fn consistent(self) -> bool {
        forall|c: i64| #[trigger] self.routes.contains_key(c) ==> self.owners.contains_key(self.routes[c])
    }

    pub open spec fn with_network(self, name: Seq<char>, owner: i64) -> RegistryView {
        RegistryView { owners: self.owners.insert(name, owner), routes: self.routes }
    }

    pub open spec fn with_member(self, name: Seq<char>, channel: i64) -> RegistryView {
        RegistryView { owners: self.owners, routes: self.routes.insert(channel, name) }
    }

    pub open spec fn without_member(self, channel: i64) -> RegistryView {
        RegistryView { owners: self.owners, routes: self.routes.remove(channel) }
    }

    /// The network is gone, and so is every membership in it.
    pub open spec fn without_network(self, name: Seq<char>) -> RegistryView {
        RegistryView {
            owners: self.owners.remove(name),
            routes: Map::new(
                |c: i64| self.routes.contains_key(c) && self.routes[c] != name,
                |c: i64| self.routes[c],
            ),
        }
    }

    /// The network that a channel belongs to, if any.
    pub open spec fn lookup(self, channel: i64) -> Option<Seq<char>> {
        if self.routes.contains_key(channel) {
            Some(self.routes[channel])
        } else {
            None
        }
    }

    /// The channels that belong to the network.
    pub open spec fn members(self, name: Seq<char>) -> Set<i64> {
        Set::new(|c: i64| self.routes.contains_key(c) && self.routes[c] == name)
    }

    /// Whether a delete by `requester` removes the network.
    pub open spec fn may_delete(self, name: Seq<char>, requester: i64) -> bool {
        self.owners.contains_key(name) && self.owners[name] == requester
    }

    /// The outcome of a create: refused when the name is taken.
    pub open spec fn create_result(self, name: Seq<char>) -> Result<(), RegistryError> {
        if self.owners.contains_key(name) {
            Err(RegistryError::Conflict)
        } else {
            Ok(())
        }
    }

    /// The outcome of a join: the network must exist and the channel be free.
    pub open spec fn add_result(self, name: Seq<char>, channel: i64) -> Result<(), RegistryError> {
        if !self.owners.contains_key(name) {
            Err(RegistryError::NotFound)
        } else if self.routes.contains_key(channel) {
            Err(RegistryError::Conflict)
        } else {
            Ok(())
        }
    }
}

/// The registry's rows, held in memory.
pub struct Registry {
    networks: Vec<Network>,
    members: Vec<Member>,
    model: Ghost<RegistryView>,
}

impl View for Registry {
    type V = RegistryView;

    closed spec fn view(&self) -> RegistryView {
        self.model@
    }
}

impl Registry {
    /// The rows agree with the maps; channels are unique among the rows; and
    /// every membership points to an existing network.
    pub closed spec fn wf(&self) -> bool {
        &&& forall|i: int| 0 <= i < self.networks@.len() ==> {
            &&& #[trigger] self.model@.owners.contains_key(self.networks@[i].name@)
            &&& self.model@.owners[self.networks@[i].name@] == self.networks@[i].owner
        }
        &&& forall|n: Seq<char>| #[trigger] self.model@.owners.contains_key(n)
            ==> exists|i: int| 0 <= i < self.networks@.len() && #[trigger] self.networks@[i].name@ == n
        &&& forall|i: int| 0 <= i < self.members@.len() ==> {
            &&& #[trigger] self.model@.routes.contains_key(self.members@[i].channel)
            &&& self.model@.routes[self.members@[i].channel] == self.members@[i].name@
        }
        &&& forall|c: i64| #[trigger] self.model@.routes.contains_key(c)
            ==> exists|i: int| 0 <= i < self.members@.len() && #[trigger] self.members@[i].channel == c
        &&& forall|i: int, j: int| 0 <= i < j < self.networks@.len()
            ==> #[trigger] self.networks@[i].name@ != #[trigger] self.networks@[j].name@
        &&& forall|i: int, j: int| 0 <= i < j < self.members@.len()
            ==> #[trigger] self.members@[i].channel != #[trigger] self.members@[j].channel
        &&& self.model@.consistent()
    }

    pub fn new() -> (r: Registry)
        ensures
            r.wf(),
            r@ == RegistryView::empty(),
    {
        Registry { networks: Vec::new(), members: Vec::new(), model: Ghost(RegistryView::empty()) }
    }

    /// Whether a network of that name exists.
    pub fn has_network(&self, name: &String) -> (r: bool)
        requires
            self.wf(),
        ensures
            r == self@.owners.contains_key(name@),
    {
        match self.find_network(name) {
            Some(i) => {
                proof {
                    assert(self@.owners.contains_key(self.networks@[i as int].name@));
                }
                true
            },
            None => false,
        }
    }

    fn find_network(&self, name: &String) -> (r: Option<usize>)
        requires
            self.wf(),
        ensures
            match r {
                Some(i) => i < self.networks@.len() && self.networks@[i as int].name@ == name@,
                None => !self@.owners.contains_key(name@),
            },
    {
        let mut i: usize = 0;
        while i < self.networks.len()
            invariant
                i <= self.networks@.len(),
                forall|k: int| 0 <= k < i ==> #[trigger] self.networks@[k].name@ != name@,
            decreases self.networks@.len() - i,
        {
            if self.networks[i].name == *name {
                return Some(i);
            }
            i = i + 1;
        }
        None
    }

    fn find_member(&self, channel: i64) -> (r: Option<usize>)
        requires
            self.wf(),
        ensures
            match r {
                Some(i) => i < self.members@.len() && self.members@[i as int].channel == channel,
                None => !self@.routes.contains_key(channel),
            },
    {
        let mut i: usize = 0;
        while i < self.members.len()
            invariant
                i <= self.members@.len(),
                forall|k: int| 0 <= k < i ==> #[trigger] self.members@[k].channel != channel,
            decreases self.members@.len() - i,
        {
            if self.members[i].channel == channel {
                return Some(i);
            }
            i = i + 1;
        }
        None
    }
}

/// Creates a network named `name`, owned by `author_id`, with no members yet.
pub fn create_globalchat(reg: &mut Registry, name: String, author_id: i64) -> (r: Result<(), RegistryError>)
    requires
        old(reg).wf(),
    ensures
        final(reg).wf(),
        r == old(reg)@.create_result(name@),
        r is Ok ==> final(reg)@ == old(reg)@.with_network(name@, author_id),
        r is Err ==> final(reg)@ == old(reg)@,
{
    if reg.find_network(&name).is_some() {
        return Err(RegistryError::Conflict);
    }
    let ghost old_reg = *reg;
    let ghost n = name@;
    reg.networks.push(Network { name, owner: author_id });
    reg.model = Ghost(old_reg@.with_network(n, author_id));
    proof {
        assert forall|c: i64| #[trigger] reg.model@.routes.contains_key(c)
            implies exists|i: int| 0 <= i < reg.members@.len() && #[trigger] reg.members@[i].channel == c by {
            let i = choose|i: int| 0 <= i < old_reg.members@.len() && #[trigger] old_reg.members@[i].channel == c;
            assert(reg.members@[i].channel == c);
        }
        assert forall|m: Seq<char>| #[trigger] reg.model@.owners.contains_key(m)
            implies exists|i: int| 0 <= i < reg.networks@.len() && #[trigger] reg.networks@[i].name@ == m by {
            if m == n {
                assert(reg.networks@[reg.networks@.len() - 1].name@ == m);
            } else {
                let i = choose|i: int| 0 <= i < old_reg.networks@.len() && #[trigger] old_reg.networks@[i].name@ == m;
                assert(reg.networks@[i].name@ == m);
            }
        }
        assert forall|i: int| 0 <= i < reg.networks@.len() implies {
            &&& #[trigger] reg.model@.owners.contains_key(reg.networks@[i].name@)
            &&& reg.model@.owners[reg.networks@[i].name@] == reg.networks@[i].owner
        } by {
            if i < old_reg.networks@.len() {
                assert(old_reg.networks@[i] == reg.networks@[i]);
            }
        }
        assert forall|i: int, j: int| 0 <= i < j < reg.networks@.len()
            implies #[trigger] reg.networks@[i].name@ != #[trigger] reg.networks@[j].name@ by {
            assert(old_reg@.owners.contains_key(old_reg.networks@[i].name@));
        }
    }
    Ok(())
}

/// Adds `channel_id` to the network `name`.
pub fn add_channel_to_globalchat(reg: &mut Registry, name: String, channel_id: i64) -> (r: Result<(), RegistryError>)
    requires
        old(reg).wf(),
    ensures
        final(reg).wf(),
        r == old(reg)@.add_result(name@, channel_id),
        r is Ok ==> final(reg)@ == old(reg)@.with_member(name@, channel_id),
        r is Err ==> final(reg)@ == old(reg)@,
{
    if reg.find_network(&name).is_none() {
        return Err(RegistryError::NotFound);
    }
    if reg.find_member(channel_id).is_some() {
        return Err(RegistryError::Conflict);
    }
    let ghost old_reg = *reg;
    let ghost n = name@;
    reg.members.push(Member { channel: channel_id, name });
    reg.model = Ghost(old_reg@.with_member(n, channel_id));
    proof {
        assert forall|m: Seq<char>| #[trigger] reg.model@.owners.contains_key(m)
            implies exists|i: int| 0 <= i < reg.networks@.len() && #[trigger] reg.networks@[i].name@ == m by {
            let i = choose|i: int| 0 <= i < old_reg.networks@.len() && #[trigger] old_reg.networks@[i].name@ == m;
            assert(reg.networks@[i].name@ == m);
        }
        assert forall|c: i64| #[trigger] reg.model@.routes.contains_key(c)
            implies exists|i: int| 0 <= i < reg.members@.len() && #[trigger] reg.members@[i].channel == c by {
            if c == channel_id {
                assert(reg.members@[reg.members@.len() - 1].channel == c);
            } else {
                let i = choose|i: int| 0 <= i < old_reg.members@.len() && #[trigger] old_reg.members@[i].channel == c;
                assert(reg.members@[i].channel == c);
            }
        }
        assert forall|i: int| 0 <= i < reg.members@.len() implies {
            &&& #[trigger] reg.model@.routes.contains_key(reg.members@[i].channel)
            &&& reg.model@.routes[reg.members@[i].channel] == reg.members@[i].name@
        } by {
            if i < old_reg.members@.len() {
                assert(old_reg.members@[i] == reg.members@[i]);
            }
        }
        assert forall|i: int, j: int| 0 <= i < j < reg.members@.len()
            implies #[trigger] reg.members@[i].channel != #[trigger] reg.members@[j].channel by {
            assert(old_reg@.routes.contains_key(old_reg.members@[i].channel));
        }
    }
    Ok(())
}

/// A network created under a free name, then joined by a free channel, is
/// what a lookup of that channel finds.
pub proof fn lemma_create_join_lookup(v: RegistryView, name: Seq<char>, owner: i64, channel: i64)
    requires
        !v.owners.contains_key(name),
        !v.routes.contains_key(channel),
    ensures
        v.create_result(name) is Ok,
        v.with_network(name, owner).add_result(name, channel) is Ok,
        v.with_network(name, owner).with_member(name, channel).lookup(channel) == Some(name),
{
}

/// A delete by anyone but the owner removes nothing: the network stays, and
/// every channel still finds the network it found before.
pub proof fn lemma_delete_by_non_owner(v: RegistryView, name: Seq<char>, requester: i64)
    requires
        v.owners.contains_key(name),
        v.owners[name] != requester,
    ensures
        !v.may_delete(name, requester),
{
}

/// A delete by the owner removes the network and every membership in it: no
/// former member channel finds a network any more, and every other channel
/// keeps its own.
pub proof fn lemma_delete_by_owner_cascades(v: RegistryView, name: Seq<char>, requester: i64)
    requires
        v.consistent(),
        v.may_delete(name, requester),
    ensures
        !v.without_network(name).owners.contains_key(name),
        forall|c: i64| #[trigger] v.members(name).contains(c) ==> v.without_network(name).lookup(c) is None,
        forall|c: i64| !v.members(name).contains(c) ==> #[trigger] v.without_network(name).lookup(c) == v.lookup(c),
        v.without_network(name).consistent(),
{
}

/// Removes `channel_id` from its network; nothing happens when it belongs to none.
pub fn delete_globalchat_channel(reg: &mut Registry, channel_id: i64)
    requires
        old(reg).wf(),
    ensures
        final(reg).wf(),
        final(reg)@ == old(reg)@.without_member(channel_id),
{
    match reg.find_member(channel_id) {
        None => {
            proof {
                assert(reg@.routes.remove(channel_id) =~= reg@.routes);
            }
        },
        Some(idx) => {
            let ghost old_reg = *reg;
            let ghost orig = reg.members@;
            reg.members.remove(idx);
            reg.model = Ghost(old_reg@.without_member(channel_id));
            proof {
                let rows = reg.members@;
                assert forall|k: int| 0 <= k < rows.len() implies rows[k] == if k < idx { orig[k] } else { orig[k + 1] } by {}
                assert forall|i: int| 0 <= i < rows.len() implies {
                    &&& #[trigger] reg.model@.routes.contains_key(rows[i].channel)
                    &&& reg.model@.routes[rows[i].channel] == rows[i].name@
                } by {
                    let oi = if i < idx { i } else { i + 1 };
                    assert(rows[i] == orig[oi]);
                    assert(old_reg@.routes.contains_key(orig[oi].channel));
                    assert(orig[oi].channel != orig[idx as int].channel);
                }
                assert forall|c: i64| #[trigger] reg.model@.routes.contains_key(c)
                    implies exists|i: int| 0 <= i < rows.len() && #[trigger] rows[i].channel == c by {
                    let j = choose|j: int| 0 <= j < orig.len() && #[trigger] orig[j].channel == c;
                    if j < idx {
                        assert(rows[j].channel == c);
                    } else {
                        assert(rows[j - 1].channel == c);
                    }
                }
                assert forall|i: int, j: int| 0 <= i < j < rows.len()
                    implies #[trigger] rows[i].channel != #[trigger] rows[j].channel by {
                    let oi = if i < idx { i } else { i + 1 };
                    let oj = if j < idx { j } else { j + 1 };
                    assert(rows[i] == orig[oi]);
                    assert(rows[j] == orig[oj]);
                }
                assert forall|m: Seq<char>| #[trigger] reg.model@.owners.contains_key(m)
                    implies exists|i: int| 0 <= i < reg.networks@.len() && #[trigger] reg.networks@[i].name@ == m by {
                    let i = choose|i: int| 0 <= i < old_reg.networks@.len() && #[trigger] old_reg.networks@[i].name@ == m;
                    assert(reg.networks@[i].name@ == m);
                }
            }
        },
    }
}

/// Deletes the network `name` when `owner_id` owns it, and with it every
/// membership in it. Returns whether it was deleted.
pub fn delete_globalchat(reg: &mut Registry, name: String, owner_id: i64) -> (r: bool)
    requires
        old(reg).wf(),
    ensures
        final(reg).wf(),
        r == old(reg)@.may_delete(name@, owner_id),
        r ==> final(reg)@ == old(reg)@.without_network(name@),
        !r ==> final(reg)@ == old(reg)@,
{
    let idx = match reg.find_network(&name) {
        None => return false,
        Some(idx) => idx,
    };
    proof {
        assert(reg@.owners.contains_key(reg.networks@[idx as int].name@));
    }
    if reg.networks[idx].owner != owner_id {
        return false;
    }
    let ghost old_reg = *reg;
    let ghost n = name@;
    let ghost target = old_reg@.without_network(n);
    let ghost orig = reg.networks@;
    reg.networks.remove(idx);
    let mut kept: Vec<Member> = Vec::new();
    let ghost morig = reg.members@;
    while reg.members.len() > 0
        invariant
            idx < orig.len(),
            n == name@,
            orig[idx as int].name@ == n,
            old_reg.networks@ == orig,
            reg.networks@ == orig.remove(idx as int),
            reg.members@.len() <= morig.len(),
            reg.members@ == morig.subrange(0, reg.members@.len() as int),
            old_reg.wf(),
            old_reg.members@ == morig,
            target == old_reg@.without_network(n),
            forall|k: int| 0 <= k < kept@.len() ==> {
                &&& #[trigger] target.routes.contains_key(kept@[k].channel)
                &&& target.routes[kept@[k].channel] == kept@[k].name@
            },
            forall|k: int, l: int| 0 <= k < l < kept@.len() ==> #[trigger] kept@[k].channel != #[trigger] kept@[l].channel,
            forall|k: int, j: int| 0 <= k < kept@.len() && 0 <= j < reg.members@.len()
                ==> #[trigger] kept@[k].channel != #[trigger] reg.members@[j].channel,
            forall|c: i64| #[trigger] target.routes.contains_key(c) ==>
                (exists|j: int| 0 <= j < reg.members@.len() && #[trigger] reg.members@[j].channel == c)
                || (exists|k: int| 0 <= k < kept@.len() && #[trigger] kept@[k].channel == c),
        decreases reg.members@.len(),
    {
        let ghost before_rest = reg.members@;
        let ghost before_kept = kept@;
        let m = reg.members.pop().unwrap();
        let ghost last = before_rest.len() - 1;
        proof {
            assert(before_rest[last] == morig[last]);
            assert(m == morig[last]);
            assert(old_reg@.routes.contains_key(m.channel));
            assert(old_reg@.routes[m.channel] == m.name@);
            if m.name@ != n {
                assert(target.routes.contains_key(m.channel));
            } else {
                assert(!target.routes.contains_key(m.channel));
            }
        }
        let ghost gm = m;
        let same = m.name == name;
        if !same {
            kept.push(m);
            assert(kept@ == before_kept.push(gm));
            assert(gm.name@ != n);
        } else {
            assert(gm.name@ == n);
        }
        proof {
            assert(kept@ == if gm.name@ != n { before_kept.push(gm) } else { before_kept });
            assert forall|k: int| 0 <= k < kept@.len() implies {
                &&& #[trigger] target.routes.contains_key(kept@[k].channel)
                &&& target.routes[kept@[k].channel] == kept@[k].name@
            } by {
                if k < before_kept.len() {
                    assert(kept@[k] == before_kept[k]);
                }
            }
            assert forall|k: int, l: int| 0 <= k < l < kept@.len()
                implies #[trigger] kept@[k].channel != #[trigger] kept@[l].channel by {
                if l == before_kept.len() {
                    assert(before_rest[last] == m);
                    assert(kept@[k] == before_kept[k]);
                } else {
                    assert(kept@[k] == before_kept[k]);
                    assert(kept@[l] == before_kept[l]);
                }
            }
            assert forall|k: int, j: int| 0 <= k < kept@.len() && 0 <= j < reg.members@.len()
                implies #[trigger] kept@[k].channel != #[trigger] reg.members@[j].channel by {
                assert(reg.members@[j] == before_rest[j]);
                assert(before_rest[j] == morig[j]);
                if k == before_kept.len() {
                    assert(morig[j].channel != morig[last].channel);
                } else {
                    assert(kept@[k] == before_kept[k]);
                }
            }
            assert forall|c: i64| #[trigger] target.routes.contains_key(c) implies
                (exists|j: int| 0 <= j < reg.members@.len() && #[trigger] reg.members@[j].channel == c)
                || (exists|k: int| 0 <= k < kept@.len() && #[trigger] kept@[k].channel == c) by {
                if exists|k: int| 0 <= k < before_kept.len() && #[trigger] before_kept[k].channel == c {
                    let k = choose|k: int| 0 <= k < before_kept.len() && #[trigger] before_kept[k].channel == c;
                    assert(kept@[k] == before_kept[k]);
                } else {
                    let j = choose|j: int| 0 <= j < before_rest.len() && #[trigger] before_rest[j].channel == c;
                    if j == last {
                        assert(m.name@ != n);
                        assert(kept@[kept@.len() - 1] == m);
                    } else {
                        assert(reg.members@[j] == before_rest[j]);
                    }
                }
            }
        }
    }
    let ghost kept_rows = kept@;
    reg.members = kept;
    reg.model = Ghost(target);
    proof {
        let nets = reg.networks@;
        assert(reg.members@ == kept_rows);
        assert forall|c: i64| #[trigger] reg.model@.routes.contains_key(c)
            implies exists|i: int| 0 <= i < reg.members@.len() && #[trigger] reg.members@[i].channel == c by {
            let k = choose|k: int| 0 <= k < kept_rows.len() && #[trigger] kept_rows[k].channel == c;
            assert(reg.members@[k].channel == c);
        }
        assert forall|i: int| 0 <= i < reg.members@.len() implies {
            &&& #[trigger] reg.model@.routes.contains_key(reg.members@[i].channel)
            &&& reg.model@.routes[reg.members@[i].channel] == reg.members@[i].name@
        } by {
            assert(reg.members@[i] == kept_rows[i]);
        }
        assert forall|i: int, j: int| 0 <= i < j < reg.members@.len()
            implies #[trigger] reg.members@[i].channel != #[trigger] reg.members@[j].channel by {
            assert(reg.members@[i] == kept_rows[i]);
            assert(reg.members@[j] == kept_rows[j]);
        }
        assert forall|k: int| 0 <= k < nets.len() implies nets[k] == if k < idx { orig[k] } else { orig[k + 1] } by {}
        assert forall|i: int| 0 <= i < nets.len() implies {
            &&& #[trigger] reg.model@.owners.contains_key(nets[i].name@)
            &&& reg.model@.owners[nets[i].name@] == nets[i].owner
        } by {
            let oi = if i < idx { i } else { i + 1 };
            assert(nets[i] == orig[oi]);
            assert(orig[oi].name@ != orig[idx as int].name@);
            assert(old_reg@.owners.contains_key(orig[oi].name@));
        }
        assert forall|m: Seq<char>| #[trigger] reg.model@.owners.contains_key(m)
            implies exists|i: int| 0 <= i < nets.len() && #[trigger] nets[i].name@ == m by {
            let j = choose|j: int| 0 <= j < orig.len() && #[trigger] orig[j].name@ == m;
            if j < idx {
                assert(nets[j].name@ == m);
            } else {
                assert(nets[j - 1].name@ == m);
            }
        }
        assert forall|i: int, j: int| 0 <= i < j < nets.len()
            implies #[trigger] nets[i].name@ != #[trigger] nets[j].name@ by {
            let oi = if i < idx { i } else { i + 1 };
            let oj = if j < idx { j } else { j + 1 };
            assert(nets[i] == orig[oi]);
            assert(nets[j] == orig[oj]);
        }
        assert forall|c: i64| #[trigger] reg.model@.routes.contains_key(c)
            implies reg.model@.owners.contains_key(reg.model@.routes[c]) by {
            assert(old_reg@.routes.contains_key(c));
        }
    }
    true
}

/// The name of the network that `channel_id` belongs to, if any.
pub fn get_globalchat_name_by_channel_id(reg: &Registry, channel_id: i64) -> (r: Option<String>)
    requires
        reg.wf(),
    ensures
        crate::identity::opt_view(r) == reg@.lookup(channel_id),
{
    match reg.find_member(channel_id) {
        Some(i) => Some(reg.members[i].name.clone()),
        None => None,
    }
}

/// Some row before `bound` puts channel `c` in the network `name`.
spec fn row_of(rows: Seq<Member>, name: Seq<char>, bound: int, c: i64) -> bool {
    exists|j: int| 0 <= j < bound && #[trigger] rows[j].channel == c && rows[j].name@ == name
}

/// Every channel of the network `name`, each once.
pub fn get_globalchat_channels(reg: &Registry, name: String) -> (r: Vec<i64>)
    requires
        reg.wf(),
    ensures
        r@.to_set() == reg@.members(name@),
        r@.no_duplicates(),
{
    let mut out: Vec<i64> = Vec::new();
    let mut i: usize = 0;
    while i < reg.members.len()
        invariant
            reg.wf(),
            i <= reg.members@.len(),
            out@.no_duplicates(),
            forall|k: int| 0 <= k < out@.len() ==> row_of(reg.members@, name@, i as int, #[trigger] out@[k]),
            forall|j: int| 0 <= j < i && #[trigger] reg.members@[j].name@ == name@ ==> out@.contains(reg.members@[j].channel),
        decreases reg.members@.len() - i,
    {
        if reg.members[i].name == name {
            let c = reg.members[i].channel;
            proof {
                assert forall|k: int| 0 <= k < out@.len() implies out@[k] != c by {
                    assert(row_of(reg.members@, name@, i as int, out@[k]));
                    let j = choose|j: int| 0 <= j < i && #[trigger] reg.members@[j].channel == out@[k] && reg.members@[j].name@ == name@;
                    assert(reg.members@[j].channel != reg.members@[i as int].channel);
                }
            }
            let ghost before = out@;
            out.push(c);
            proof {
                assert forall|k: int| 0 <= k < out@.len() implies row_of(reg.members@, name@, i + 1, #[trigger] out@[k]) by {
                    if k == out@.len() - 1 {
                        assert(reg.members@[i as int].channel == out@[k]);
                        assert(reg.members@[i as int].name@ == name@);
                    } else {
                        assert(out@[k] == before[k]);
                        assert(row_of(reg.members@, name@, i as int, before[k]));
                        let j = choose|j: int| 0 <= j < i && #[trigger] reg.members@[j].channel == before[k] && reg.members@[j].name@ == name@;
                        assert(reg.members@[j].channel == out@[k]);
                    }
                }
                assert forall|j: int| 0 <= j < i + 1 && #[trigger] reg.members@[j].name@ == name@ implies out@.contains(reg.members@[j].channel) by {
                    if j == i {
                        assert(out@[out@.len() - 1] == c);
                    } else {
                        let k = choose|k: int| 0 <= k < before.len() && before[k] == reg.members@[j].channel;
                        assert(out@[k] == before[k]);
                    }
                }
            }
        } else {
            proof {
                assert forall|k: int| 0 <= k < out@.len() implies row_of(reg.members@, name@, i + 1, #[trigger] out@[k]) by {
                    assert(row_of(reg.members@, name@, i as int, out@[k]));
                    let j = choose|j: int| 0 <= j < i && #[trigger] reg.members@[j].channel == out@[k] && reg.members@[j].name@ == name@;
                    assert(0 <= j < i + 1 && reg.members@[j].channel == out@[k] && reg.members@[j].name@ == name@);
                }
            }
        }
        i = i + 1;
    }
    proof {
        assert forall|c: i64| #[trigger] out@.to_set().contains(c) <==> reg@.members(name@).contains(c) by {
            if out@.contains(c) {
                let k = choose|k: int| 0 <= k < out@.len() && out@[k] == c;
                assert(row_of(reg.members@, name@, reg.members@.len() as int, out@[k]));
                let j = choose|j: int| 0 <= j < reg.members@.len() && #[trigger] reg.members@[j].channel == out@[k] && reg.members@[j].name@ == name@;
                assert(reg@.routes.contains_key(reg.members@[j].channel));
            }
            if reg@.members(name@).contains(c) {
                let j = choose|j: int| 0 <= j < reg.members@.len() && #[trigger] reg.members@[j].channel == c;
                assert(reg@.routes.contains_key(reg.members@[j].channel));
            }
        }
        assert(out@.to_set() =~= reg@.members(name@));
    }
    out
}

} // verus!
