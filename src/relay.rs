//! What one inbound message becomes: the destinations, the identity to post
//! under, the attachments to re-upload, and the summary of the fan-out.
use vstd::prelude::*;
use crate::identity::{Author, avatar_url, display_name, spec_avatar_url, spec_display_name, opt_view};
use crate::registry::{Registry, get_globalchat_name_by_channel_id, get_globalchat_channels};

verus! {

/// An inbound message, as the event stream delivers it.
pub struct InboundMessage {
    pub channel_id: i64,
    pub author: Author,
    pub content: String,
}

/// Everything the fan-out of one message needs but the attachments.
pub struct RelayJob {
    pub origin: i64,
    pub network: String,
    /// The network's channels but the origin, each once.
    pub destinations: Vec<i64>,
    pub username: String,
    pub avatar_url: String,
    pub content: String,
}

/// An inbound attachment after its fetch: its file name, and its bytes when
/// the fetch succeeded.
pub struct FetchedAttachment {
    pub filename: String,
    pub data: Option<Vec<u8>>,
}

/// An attachment ready for upload, with its position among the inbound ones.
pub struct AttachmentPayload {
    pub filename: String,
    pub file: Vec<u8>,
    pub id: u64,
}

impl View for AttachmentPayload {
    type V = (Seq<char>, Seq<u8>, u64);

    open spec fn view(&self) -> (Seq<char>, Seq<u8>, u64) {
        (self.filename@, self.file@, self.id)
    }
}

/// How one destination's post ended.
pub struct DeliveryResult {
    pub channel: i64,
    pub delivered: bool,
}

/// The outcome of one fan-out, destination by destination.
pub struct BroadcastReport {
    pub delivered: Vec<i64>,
    pub failed: Vec<i64>,
}

/// How a fan-out went as a whole.
#[derive(PartialEq, Eq, Structural, Clone, Copy, Debug)]
pub enum BroadcastStatus {
    /// There was nothing to post to, or every post went through.
    Complete,
    /// Some destinations failed while others were reached.
    PartialFailure,
    /// Every destination failed.
    Failed,
}

pub open spec fn not_origin(origin: i64) -> spec_fn(i64) -> bool {
    |c: i64| c != origin
}

/// The payloads kept from the fetched attachments: those whose fetch
/// succeeded, in order, each with its position among all of them.
pub open spec fn kept_payloads(f: Seq<FetchedAttachment>) -> Seq<(Seq<char>, Seq<u8>, u64)>
    decreases f.len(),
{
    if f.len() == 0 {
        Seq::empty()
    } else {
        let prev = kept_payloads(f.drop_last());
        match f.last().data {
            Some(d) => prev.push((f.last().filename@, d@, (f.len() - 1) as u64)),
            None => prev,
        }
    }
}

/// The channels of the results whose `delivered` is `ok`, in order.
pub open spec fn channels_where(rs: Seq<DeliveryResult>, ok: bool) -> Seq<i64>
    decreases rs.len(),
{
    if rs.len() == 0 {
        Seq::empty()
    } else {
        let prev = channels_where(rs.drop_last(), ok);
        if rs.last().delivered == ok {
            prev.push(rs.last().channel)
        } else {
            prev
        }
    }
}

pub open spec fn status_of(delivered: nat, failed: nat) -> BroadcastStatus {
    if failed == 0 {
        BroadcastStatus::Complete
    } else if delivered == 0 {
        BroadcastStatus::Failed
    } else {
        BroadcastStatus::PartialFailure
    }
}

proof fn lemma_filter_keeps_distinct(s: Seq<i64>, pred: spec_fn(i64) -> bool)
    requires
        s.no_duplicates(),
    ensures
        s.filter(pred).no_duplicates(),
    decreases s.len(),
{
    reveal(Seq::filter);
    if s.len() > 0 {
        let init = s.drop_last();
        assert(init.no_duplicates()) by {
            assert forall|i: int, j: int| 0 <= i < init.len() && 0 <= j < init.len() && i != j
                implies init[i] != init[j] by {
                assert(init[i] == s[i] && init[j] == s[j]);
            }
        }
        lemma_filter_keeps_distinct(init, pred);
        if pred(s.last()) {
            if init.filter(pred).contains(s.last()) {
                init.lemma_filter_contains_rev(pred, s.last());
                let k = choose|k: int| 0 <= k < init.len() && init[k] == s.last();
                assert(s[k] == s[s.len() - 1]);
            }
        }
    }
}

proof fn lemma_filter_membership(s: Seq<i64>, pred: spec_fn(i64) -> bool, c: i64)
    ensures
        s.filter(pred).contains(c) <==> (s.contains(c) && pred(c)),
{
    if s.filter(pred).contains(c) {
        s.lemma_filter_contains_rev(pred, c);
        let k = choose|k: int| 0 <= k < s.filter(pred).len() && s.filter(pred)[k] == c;
        s.lemma_filter_pred(pred, k);
    }
    if s.contains(c) && pred(c) {
        let k = choose|k: int| 0 <= k < s.len() && s[k] == c;
        s.lemma_filter_contains(pred, k);
    }
}

/// The members of a network but the origin, in the order given.
pub fn destinations(members: &Vec<i64>, origin: i64) -> (r: Vec<i64>)
    ensures
        r@ == members@.filter(not_origin(origin)),
{
    let mut out: Vec<i64> = Vec::new();
    let mut i: usize = 0;
    while i < members.len()
        invariant
            i <= members@.len(),
            out@ == members@.subrange(0, i as int).filter(not_origin(origin)),
        decreases members@.len() - i,
    {
        let c = members[i];
        proof {
            reveal(Seq::filter);
            assert(members@.subrange(0, i + 1).drop_last() == members@.subrange(0, i as int));
        }
        if c != origin {
            out.push(c);
        }
        i = i + 1;
    }
    proof {
        assert(members@.subrange(0, members@.len() as int) == members@);
    }
    out
}

/// What an inbound message becomes: nothing when a bot wrote it or its
/// channel belongs to no network; else a job for every other channel of the
/// network, under the author's shown name and avatar.
pub fn plan_relay(reg: &Registry, msg: &InboundMessage) -> (r: Option<RelayJob>)
    requires
        reg.wf(),
    ensures
        r is None <==> (msg.author.bot || reg@.lookup(msg.channel_id) is None),
        r matches Some(job) ==> {
            &&& reg@.lookup(msg.channel_id) == Some(job.network@)
            &&& job.origin == msg.channel_id
            &&& forall|c: i64| job.destinations@.contains(c)
                <==> (reg@.members(job.network@).contains(c) && c != msg.channel_id)
            &&& job.destinations@.no_duplicates()
            &&& job.username@ == spec_display_name(msg.author.name@)
            &&& job.avatar_url@ == spec_avatar_url(msg.author.id, opt_view(msg.author.avatar), msg.author.discriminator)
            &&& job.content@ == msg.content@
        },
{
    if msg.author.bot {
        return None;
    }
    let network = match get_globalchat_name_by_channel_id(reg, msg.channel_id) {
        None => return None,
        Some(n) => n,
    };
    let members = get_globalchat_channels(reg, network.clone());
    let dests = destinations(&members, msg.channel_id);
    proof {
        lemma_filter_keeps_distinct(members@, not_origin(msg.channel_id));
        assert forall|c: i64| dests@.contains(c)
            <==> (reg@.members(network@).contains(c) && c != msg.channel_id) by {
            lemma_filter_membership(members@, not_origin(msg.channel_id), c);
            assert(members@.to_set().contains(c) == members@.contains(c));
        }
    }
    Some(RelayJob {
        origin: msg.channel_id,
        network,
        destinations: dests,
        username: display_name(&msg.author.name),
        avatar_url: avatar_url(&msg.author),
        content: msg.content.clone(),
    })
}

/// The attachments to upload: those whose fetch succeeded, in their order,
/// each numbered by its position among all the inbound ones. A failed fetch
/// drops only its own attachment.
pub fn collect_attachments(fetched: &Vec<FetchedAttachment>) -> (r: Vec<AttachmentPayload>)
    requires
        fetched@.len() <= u64::MAX,
    ensures
        r@.map_values(|p: AttachmentPayload| p@) == kept_payloads(fetched@),
{
    let mut out: Vec<AttachmentPayload> = Vec::new();
    let mut i: usize = 0;
    while i < fetched.len()
        invariant
            i <= fetched@.len(),
            fetched@.len() <= u64::MAX,
            out@.map_values(|p: AttachmentPayload| p@) == kept_payloads(fetched@.subrange(0, i as int)),
        decreases fetched@.len() - i,
    {
        let ghost before = out@;
        proof {
            assert(fetched@.subrange(0, i + 1).drop_last() == fetched@.subrange(0, i as int));
        }
        match &fetched[i].data {
            Some(d) => {
                let file = d.clone();
                proof {
                    assert(file@ =~= d@);
                }
                out.push(AttachmentPayload { filename: fetched[i].filename.clone(), file, id: i as u64 });
                proof {
                    assert(out@.map_values(|p: AttachmentPayload| p@)
                        =~= before.map_values(|p: AttachmentPayload| p@).push(out@.last()@));
                }
            },
            None => {},
        }
        i = i + 1;
    }
    proof {
        assert(fetched@.subrange(0, fetched@.len() as int) == fetched@);
    }
    out
}

/// Sorts the destinations of one fan-out into those reached and those that
/// failed, each in the order given.
pub fn summarize(results: &Vec<DeliveryResult>) -> (r: BroadcastReport)
    ensures
        r.delivered@ == channels_where(results@, true),
        r.failed@ == channels_where(results@, false),
{
    let mut delivered: Vec<i64> = Vec::new();
    let mut failed: Vec<i64> = Vec::new();
    let mut i: usize = 0;
    while i < results.len()
        invariant
            i <= results@.len(),
            delivered@ == channels_where(results@.subrange(0, i as int), true),
            failed@ == channels_where(results@.subrange(0, i as int), false),
        decreases results@.len() - i,
    {
        proof {
            assert(results@.subrange(0, i + 1).drop_last() == results@.subrange(0, i as int));
        }
        if results[i].delivered {
            delivered.push(results[i].channel);
        } else {
            failed.push(results[i].channel);
        }
        i = i + 1;
    }
    proof {
        assert(results@.subrange(0, results@.len() as int) == results@);
    }
    BroadcastReport { delivered, failed }
}

impl BroadcastReport {
    pub fn status(&self) -> (r: BroadcastStatus)
        ensures
            r == status_of(self.delivered@.len(), self.failed@.len()),
    {
        if self.failed.len() == 0 {
            BroadcastStatus::Complete
        } else if self.delivered.len() == 0 {
            BroadcastStatus::Failed
        } else {
            BroadcastStatus::PartialFailure
        }
    }
}

/// A message is never relayed to the channel it came from.
pub proof fn lemma_origin_excluded(members: Seq<i64>, origin: i64)
    ensures
        !members.filter(not_origin(origin)).contains(origin),
        forall|c: i64| c != origin && members.contains(c) ==> #[trigger] members.filter(not_origin(origin)).contains(c),
{
    lemma_filter_membership(members, not_origin(origin), origin);
    assert forall|c: i64| c != origin && members.contains(c) implies #[trigger] members.filter(not_origin(origin)).contains(c) by {
        lemma_filter_membership(members, not_origin(origin), c);
    }
}

/// One destination's failure costs no other destination its delivery: every
/// destination whose own post went through is reported as reached, and every
/// one whose post failed as failed, whatever became of the others.
pub proof fn lemma_failure_isolated(results: Seq<DeliveryResult>, k: int)
    requires
        0 <= k < results.len(),
    ensures
        results[k].delivered ==> channels_where(results, true).contains(results[k].channel),
        !results[k].delivered ==> channels_where(results, false).contains(results[k].channel),
    decreases results.len(),
{
    let ok = results[k].delivered;
    if k == results.len() - 1 {
        let prev = channels_where(results.drop_last(), ok);
        assert(channels_where(results, ok) == prev.push(results[k].channel));
        assert(channels_where(results, ok)[prev.len() as int] == results[k].channel);
    } else {
        lemma_failure_isolated(results.drop_last(), k);
        assert(results.drop_last()[k] == results[k]);
        let prev = channels_where(results.drop_last(), ok);
        let j = choose|j: int| 0 <= j < prev.len() && prev[j] == results[k].channel;
        if results.last().delivered == ok {
            assert(channels_where(results, ok)[j] == prev[j]);
        }
    }
}

} // verus!
