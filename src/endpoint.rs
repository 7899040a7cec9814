//! The cache of posting endpoints, one per destination channel.
//!
//! A channel's entry is absent, being provisioned by exactly one caller, or
//! ready. Callers that find it being provisioned wait and ask again, so two
//! broadcasts to a new channel never provision two endpoints.
use vstd::prelude::*;
use vstd::hash_map::HashMapWithView;

verus! {

broadcast use vstd::std_specs::hash::group_hash_axioms;

/// A posting endpoint: its id and its secret token.
pub struct Endpoint {
    pub id: u64,
    pub token: String,
}

impl View for Endpoint {
    type V = (u64, Seq<char>);

    open spec fn view(&self) -> (u64, Seq<char>) {
        (self.id, self.token@)
    }
}

impl Endpoint {
    pub fn duplicate(&self) -> (r: Endpoint)
        ensures
            r@ == self@,
    {
        Endpoint { id: self.id, token: self.token.clone() }
    }
}

/// An endpoint that the platform lists on a channel.
pub struct EndpointInfo {
    pub id: u64,
    /// The user that the endpoint belongs to, when the platform names one.
    pub owner: Option<u64>,
    /// The token, when the platform shows it to the caller.
    pub token: Option<String>,
}

/// The endpoint is this service's own and can be posted through.
pub open spec fn usable(e: EndpointInfo, self_id: u64) -> bool {
    e.owner == Some(self_id) && e.token is Some
}

/// The entry of a channel.
pub enum Slot {
    /// One caller is discovering or provisioning the endpoint.
    Provisioning,
    Ready(Endpoint),
}

pub ghost enum SlotView {
    Provisioning,
    Ready((u64, Seq<char>)),
}

impl View for Slot {
    type V = SlotView;

    open spec fn view(&self) -> SlotView {
        match self {
            Slot::Provisioning => SlotView::Provisioning,
            Slot::Ready(e) => SlotView::Ready(e@),
        }
    }
}

/// What a caller of `begin_resolve` is told to do.
pub enum ResolveStep {
    /// Post through this endpoint.
    Use(Endpoint),
    /// Discover the channel's endpoints, or provision one; then report back.
    Discover,
    /// Another caller is provisioning: wait for it, then ask again.
    Wait,
}

pub ghost enum StepView {
    Use((u64, Seq<char>)),
    Discover,
    Wait,
}

impl View for ResolveStep {
    type V = StepView;

    open spec fn view(&self) -> StepView {
        match self {
            ResolveStep::Use(e) => StepView::Use(e@),
            ResolveStep::Discover => StepView::Discover,
            ResolveStep::Wait => StepView::Wait,
        }
    }
}

/// What a resolve of `channel` answers on the cache `m`.
pub open spec fn step_of(m: Map<i64, SlotView>, channel: i64) -> StepView {
    if !m.contains_key(channel) {
        StepView::Discover
    } else {
        match m[channel] {
            SlotView::Provisioning => StepView::Wait,
            SlotView::Ready(e) => StepView::Use(e),
        }
    }
}

/// The cache after a resolve of `channel`: an absent entry becomes provisioning.
pub open spec fn after_step(m: Map<i64, SlotView>, channel: i64) -> Map<i64, SlotView> {
    if !m.contains_key(channel) {
        m.insert(channel, SlotView::Provisioning)
    } else {
        m
    }
}

/// The cache after a post through `endpoint_id` found the endpoint gone: the
/// entry goes when it still holds that endpoint.
pub open spec fn after_gone(m: Map<i64, SlotView>, channel: i64, endpoint_id: u64) -> Map<i64, SlotView> {
    if m.contains_key(channel) && m[channel] is Ready && m[channel]->Ready_0.0 == endpoint_id {
        m.remove(channel)
    } else {
        m
    }
}

/// The entry holds exactly the endpoint `e`.
pub open spec fn holds(m: Map<i64, SlotView>, channel: i64, e: (u64, Seq<char>)) -> bool {
    m.contains_key(channel) && m[channel] == SlotView::Ready(e)
}

/// How a post through an endpoint went.
#[derive(PartialEq, Eq, Structural, Clone, Copy, Debug)]
pub enum PostOutcome {
    Delivered,
    /// The platform no longer knows the endpoint.
    EndpointGone,
    /// A rate limit or a timeout.
    Transient,
    /// Anything else that will not mend by itself: permissions, a deleted channel.
    Permanent,
}

/// What to do after a post.
#[derive(PartialEq, Eq, Structural, Clone, Copy, Debug)]
pub enum DeliveryAction {
    Done,
    /// Resolve the endpoint again and post once more.
    Retry,
    /// Count the destination as failed.
    GiveUp,
}

/// The action after a post: one more try after the first attempt found the
/// endpoint gone, none otherwise.
pub open spec fn action_of(attempt: u32, outcome: PostOutcome) -> DeliveryAction {
    match outcome {
        PostOutcome::Delivered => DeliveryAction::Done,
        PostOutcome::EndpointGone => if attempt == 0 { DeliveryAction::Retry } else { DeliveryAction::GiveUp },
        _ => DeliveryAction::GiveUp,
    }
}

/// The first usable endpoint of lowest id, if any.
pub fn pick_owned(infos: &Vec<EndpointInfo>, self_id: u64) -> (r: Option<usize>)
    ensures
        match r {
            Some(i) => {
                &&& i < infos@.len()
                &&& usable(infos@[i as int], self_id)
                &&& forall|j: int| 0 <= j < infos@.len() && usable(#[trigger] infos@[j], self_id)
                    ==> infos@[i as int].id <= infos@[j].id
                &&& forall|j: int| 0 <= j < i && usable(#[trigger] infos@[j], self_id)
                    ==> infos@[i as int].id < infos@[j].id
            },
            None => forall|j: int| 0 <= j < infos@.len() ==> !usable(#[trigger] infos@[j], self_id),
        },
{
    let mut best: Option<usize> = None;
    let mut i: usize = 0;
    while i < infos.len()
        invariant
            i <= infos@.len(),
            match best {
                Some(b) => {
                    &&& b < i
                    &&& usable(infos@[b as int], self_id)
                    &&& forall|j: int| 0 <= j < i && usable(#[trigger] infos@[j], self_id)
                        ==> infos@[b as int].id <= infos@[j].id
                    &&& forall|j: int| 0 <= j < b && usable(#[trigger] infos@[j], self_id)
                        ==> infos@[b as int].id < infos@[j].id
                },
                None => forall|j: int| 0 <= j < i ==> !usable(#[trigger] infos@[j], self_id),
            },
        decreases infos@.len() - i,
    {
        let e = &infos[i];
        if e.owner == Some(self_id) && e.token.is_some() {
            match best {
                None => {
                    best = Some(i);
                },
                Some(b) => {
                    if e.id < infos[b].id {
                        best = Some(i);
                    }
                },
            }
        }
        i = i + 1;
    }
    best
}

/// The endpoints of the destination channels.
pub struct EndpointCache {
    slots: HashMapWithView<i64, Slot>,
}

impl View for EndpointCache {
    type V = Map<i64, SlotView>;

    closed spec fn view(&self) -> Map<i64, SlotView> {
        Map::new(|c: i64| self.slots@.contains_key(c), |c: i64| self.slots@[c]@)
    }
}

impl EndpointCache {
    pub fn new() -> (r: EndpointCache)
        ensures
            r@ == Map::<i64, SlotView>::empty(),
    {
        let r = EndpointCache { slots: HashMapWithView::new() };
        proof {
            assert(r@ =~= Map::<i64, SlotView>::empty());
        }
        r
    }

    /// Starts a resolve of `channel`'s endpoint. Exactly one caller is told to
    /// discover an absent entry; later callers wait until it is ready.
    pub fn begin_resolve(&mut self, channel: i64) -> (r: ResolveStep)
        ensures
            r@ == step_of(old(self)@, channel),
            final(self)@ == after_step(old(self)@, channel),
    {
        match self.slots.get(&channel) {
            Some(Slot::Ready(e)) => ResolveStep::Use(e.duplicate()),
            Some(Slot::Provisioning) => ResolveStep::Wait,
            None => {
                let ghost before = self@;
                self.slots.insert(channel, Slot::Provisioning);
                proof {
                    assert(self@ =~= before.insert(channel, SlotView::Provisioning));
                }
                ResolveStep::Discover
            },
        }
    }

    /// Reports what discovery found on `channel`. A usable endpoint of this
    /// service (the lowest id among them) is adopted and returned; with none,
    /// the caller provisions one and reports it through `provisioned`.
    pub fn discovered(&mut self, channel: i64, infos: &Vec<EndpointInfo>, self_id: u64) -> (r: Option<Endpoint>)
        ensures
            match r {
                Some(e) => {
                    &&& exists|i: int| 0 <= i < infos@.len() && usable(#[trigger] infos@[i], self_id)
                        && infos@[i].id == e.id && infos@[i].token->Some_0@ == e.token@
                    &&& forall|j: int| 0 <= j < infos@.len() && usable(#[trigger] infos@[j], self_id) ==> e.id <= infos@[j].id
                    &&& final(self)@ == old(self)@.insert(channel, SlotView::Ready(e@))
                },
                None => {
                    &&& forall|j: int| 0 <= j < infos@.len() ==> !usable(#[trigger] infos@[j], self_id)
                    &&& final(self)@ == old(self)@
                },
            },
    {
        match pick_owned(infos, self_id) {
            None => None,
            Some(i) => {
                let token = match &infos[i].token {
                    Some(t) => t.clone(),
                    None => String::new(),
                };
                let e = Endpoint { id: infos[i].id, token };
                let kept = e.duplicate();
                let ghost before = self@;
                self.slots.insert(channel, Slot::Ready(kept));
                proof {
                    assert(self@ =~= before.insert(channel, SlotView::Ready(e@)));
                    assert(usable(infos@[i as int], self_id));
                }
                Some(e)
            },
        }
    }

    /// Stores the endpoint that the caller told to discover has provisioned.
    pub fn provisioned(&mut self, channel: i64, e: Endpoint)
        ensures
            final(self)@ == old(self)@.insert(channel, SlotView::Ready(e@)),
    {
        let ghost before = self@;
        let ghost ev = e@;
        self.slots.insert(channel, Slot::Ready(e));
        proof {
            assert(self@ =~= before.insert(channel, SlotView::Ready(ev)));
        }
    }

    /// Gives up a provisioning that failed, so that a later resolve starts
    /// afresh; a ready entry stays.
    pub fn abandon(&mut self, channel: i64)
        ensures
            final(self)@ == if old(self)@.contains_key(channel) && old(self)@[channel] == SlotView::Provisioning {
                old(self)@.remove(channel)
            } else {
                old(self)@
            },
    {
        let provisioning = match self.slots.get(&channel) {
            Some(Slot::Provisioning) => true,
            _ => false,
        };
        if provisioning {
            let ghost before = self@;
            self.slots.remove(&channel);
            proof {
                assert(self@ =~= before.remove(channel));
            }
        }
    }

    /// Records how a post to `channel` through the endpoint `endpoint_id` went,
    /// on the given attempt (0 for the first), and says what to do next. An
    /// endpoint that the platform no longer knows is evicted, and the first
    /// such failure earns one more try.
    pub fn after_post(&mut self, channel: i64, endpoint_id: u64, attempt: u32, outcome: PostOutcome) -> (r: DeliveryAction)
        ensures
            r == action_of(attempt, outcome),
            final(self)@ == if outcome == PostOutcome::EndpointGone {
                after_gone(old(self)@, channel, endpoint_id)
            } else {
                old(self)@
            },
    {
        match outcome {
            PostOutcome::Delivered => DeliveryAction::Done,
            PostOutcome::EndpointGone => {
                let stale = match self.slots.get(&channel) {
                    Some(Slot::Ready(e)) => e.id == endpoint_id,
                    _ => false,
                };
                if stale {
                    let ghost before = self@;
                    self.slots.remove(&channel);
                    proof {
                        assert(self@ =~= before.remove(channel));
                    }
                }
                if attempt == 0 {
                    DeliveryAction::Retry
                } else {
                    DeliveryAction::GiveUp
                }
            },
            PostOutcome::Transient => DeliveryAction::GiveUp,
            PostOutcome::Permanent => DeliveryAction::GiveUp,
        }
    }
}

/// Two resolves of a channel with no entry: the first is told to discover,
/// the second to wait; once the first reports its endpoint, every resolve is
/// handed that same endpoint, and none provisions again.
pub proof fn lemma_single_provisioning(m: Map<i64, SlotView>, channel: i64, e: (u64, Seq<char>))
    requires
        !m.contains_key(channel),
    ensures
        step_of(m, channel) == StepView::Discover,
        step_of(after_step(m, channel), channel) == StepView::Wait,
        after_step(after_step(m, channel), channel) == after_step(m, channel),
        ({
            let done = after_step(after_step(m, channel), channel).insert(channel, SlotView::Ready(e));
            &&& step_of(done, channel) == StepView::Use(e)
            &&& after_step(done, channel) == done
        }),
{
}

/// A post that finds its cached endpoint gone evicts it and is retried once;
/// the retry's resolve discovers afresh, and once a replacement is reported,
/// resolves hand out the replacement.
pub proof fn lemma_gone_endpoint_replaced(
    m: Map<i64, SlotView>,
    channel: i64,
    stale: (u64, Seq<char>),
    fresh: (u64, Seq<char>),
)
    requires
        holds(m, channel, stale),
    ensures
        action_of(0, PostOutcome::EndpointGone) == DeliveryAction::Retry,
        action_of(1, PostOutcome::EndpointGone) == DeliveryAction::GiveUp,
        step_of(after_gone(m, channel, stale.0), channel) == StepView::Discover,
        ({
            let m2 = after_step(after_gone(m, channel, stale.0), channel).insert(channel, SlotView::Ready(fresh));
            step_of(m2, channel) == StepView::Use(fresh)
        }),
{
}

} // verus!
