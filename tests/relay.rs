use globalchat::endpoint::{
    pick_owned, DeliveryAction, Endpoint, EndpointCache, EndpointInfo, PostOutcome, ResolveStep,
};
use globalchat::identity::{avatar_url, decimal_string, default_avatar_index, display_name, Author};
use globalchat::registry::{add_channel_to_globalchat, create_globalchat, Registry};
use globalchat::relay::{
    collect_attachments, destinations, plan_relay, summarize, BroadcastStatus, DeliveryResult,
    FetchedAttachment, InboundMessage,
};

fn author(id: u64, discriminator: u16, avatar: Option<&str>, bot: bool) -> Author {
    Author {
        id,
        name: "alice".to_string(),
        avatar: avatar.map(|a| a.to_string()),
        discriminator,
        bot,
    }
}

fn network_abc() -> Registry {
    let mut reg = Registry::new();
    create_globalchat(&mut reg, "net".to_string(), 1).unwrap();
    for c in [1, 2, 3] {
        add_channel_to_globalchat(&mut reg, "net".to_string(), c).unwrap();
    }
    reg
}

#[test]
fn default_avatar_index_both_schemes() {
    assert_eq!(default_avatar_index(80351110224678912, 0), (80351110224678912u64 >> 22) % 5);
    assert_eq!(default_avatar_index(80351110224678912, 0), 4);
    assert_eq!(default_avatar_index(80351110224678912, 1337), 2);
}

#[test]
fn decimal_string_writes_digits() {
    assert_eq!(decimal_string(0), "0");
    assert_eq!(decimal_string(9), "9");
    assert_eq!(decimal_string(10), "10");
    assert_eq!(decimal_string(u64::MAX), "18446744073709551615");
}

#[test]
fn avatar_url_custom_and_default() {
    let a = author(80351110224678912, 0, Some("a_1269e74af4df7417b13759eae50c83dc"), false);
    assert_eq!(
        avatar_url(&a),
        "https://cdn.discordapp.com/avatars/80351110224678912/a_1269e74af4df7417b13759eae50c83dc.png"
    );
    let b = author(80351110224678912, 0, None, false);
    assert_eq!(avatar_url(&b), "https://cdn.discordapp.com/avatars/80351110224678912/4.png");
    let c = author(42, 1337, None, false);
    assert_eq!(avatar_url(&c), "https://cdn.discordapp.com/avatars/42/2.png");
}

#[test]
fn display_name_is_cut_at_the_limit() {
    assert_eq!(display_name(&"alice".to_string()), "alice");
    let long: String = "あ".repeat(100);
    assert_eq!(display_name(&long), "あ".repeat(80));
    let exact: String = "x".repeat(80);
    assert_eq!(display_name(&exact), exact);
}

#[test]
fn origin_is_not_a_destination() {
    assert_eq!(destinations(&vec![1, 2, 3], 1), vec![2, 3]);
    assert_eq!(destinations(&vec![1], 1), Vec::<i64>::new());
    assert_eq!(destinations(&vec![], 1), Vec::<i64>::new());
}

#[test]
fn plan_relay_from_a_goes_to_b_and_c() {
    let reg = network_abc();
    let msg = InboundMessage { channel_id: 1, author: author(42, 1337, None, false), content: "hi".to_string() };
    let job = plan_relay(&reg, &msg).unwrap();
    let mut dests = job.destinations.clone();
    dests.sort();
    assert_eq!(dests, vec![2, 3]);
    assert_eq!(job.network, "net");
    assert_eq!(job.origin, 1);
    assert_eq!(job.username, "alice");
    assert_eq!(job.avatar_url, "https://cdn.discordapp.com/avatars/42/2.png");
    assert_eq!(job.content, "hi");
}

#[test]
fn plan_relay_ignores_bots_and_outsiders() {
    let reg = network_abc();
    let bot = InboundMessage { channel_id: 1, author: author(42, 0, None, true), content: "hi".to_string() };
    assert!(plan_relay(&reg, &bot).is_none());
    let outside = InboundMessage { channel_id: 9, author: author(42, 0, None, false), content: "hi".to_string() };
    assert!(plan_relay(&reg, &outside).is_none());
}

#[test]
fn failed_attachment_drops_only_itself() {
    let fetched = vec![
        FetchedAttachment { filename: "a.png".to_string(), data: Some(vec![1, 2]) },
        FetchedAttachment { filename: "b.png".to_string(), data: None },
        FetchedAttachment { filename: "c.txt".to_string(), data: Some(vec![3]) },
    ];
    let out = collect_attachments(&fetched);
    assert_eq!(out.len(), 2);
    assert_eq!((out[0].filename.as_str(), out[0].file.clone(), out[0].id), ("a.png", vec![1, 2], 0));
    assert_eq!((out[1].filename.as_str(), out[1].file.clone(), out[1].id), ("c.txt", vec![3], 2));
    assert!(collect_attachments(&vec![]).is_empty());
}

#[test]
fn failure_at_b_does_not_stop_c() {
    let results = vec![
        DeliveryResult { channel: 2, delivered: false },
        DeliveryResult { channel: 3, delivered: true },
    ];
    let report = summarize(&results);
    assert_eq!(report.delivered, vec![3]);
    assert_eq!(report.failed, vec![2]);
    assert_eq!(report.status(), BroadcastStatus::PartialFailure);
    let none = summarize(&vec![]);
    assert_eq!(none.status(), BroadcastStatus::Complete);
    let all_bad = summarize(&vec![DeliveryResult { channel: 2, delivered: false }]);
    assert_eq!(all_bad.status(), BroadcastStatus::Failed);
}

fn info(id: u64, owner: Option<u64>, token: Option<&str>) -> EndpointInfo {
    EndpointInfo { id, owner, token: token.map(|t| t.to_string()) }
}

#[test]
fn pick_owned_takes_lowest_usable_id() {
    let infos = vec![
        info(9, Some(77), Some("t9")),
        info(3, Some(5), Some("other")),
        info(4, Some(77), Some("t4")),
        info(1, Some(77), None),
        info(2, None, Some("t2")),
    ];
    assert_eq!(pick_owned(&infos, 77), Some(2));
    assert_eq!(pick_owned(&infos, 6), None);
    assert_eq!(pick_owned(&vec![], 77), None);
}

#[test]
fn concurrent_resolves_provision_once() {
    let mut cache = EndpointCache::new();
    assert!(matches!(cache.begin_resolve(5), ResolveStep::Discover));
    assert!(matches!(cache.begin_resolve(5), ResolveStep::Wait));
    assert!(cache.discovered(5, &vec![info(1, Some(8), Some("x"))], 77).is_none());
    assert!(matches!(cache.begin_resolve(5), ResolveStep::Wait));
    cache.provisioned(5, Endpoint { id: 11, token: "tok".to_string() });
    for _ in 0..2 {
        match cache.begin_resolve(5) {
            ResolveStep::Use(e) => assert_eq!((e.id, e.token.as_str()), (11, "tok")),
            _ => panic!("expected the cached endpoint"),
        }
    }
}

#[test]
fn discovery_adopts_owned_endpoint() {
    let mut cache = EndpointCache::new();
    assert!(matches!(cache.begin_resolve(5), ResolveStep::Discover));
    let e = cache.discovered(5, &vec![info(4, Some(77), Some("t4")), info(3, Some(77), Some("t3"))], 77).unwrap();
    assert_eq!((e.id, e.token.as_str()), (3, "t3"));
    match cache.begin_resolve(5) {
        ResolveStep::Use(e) => assert_eq!(e.id, 3),
        _ => panic!("expected the adopted endpoint"),
    }
}

#[test]
fn gone_endpoint_is_evicted_and_replaced() {
    let mut cache = EndpointCache::new();
    cache.begin_resolve(5);
    cache.provisioned(5, Endpoint { id: 11, token: "old".to_string() });
    assert_eq!(cache.after_post(5, 11, 0, PostOutcome::EndpointGone), DeliveryAction::Retry);
    assert!(matches!(cache.begin_resolve(5), ResolveStep::Discover));
    cache.provisioned(5, Endpoint { id: 12, token: "new".to_string() });
    match cache.begin_resolve(5) {
        ResolveStep::Use(e) => assert_eq!(e.id, 12),
        _ => panic!("expected the replacement"),
    }
    assert_eq!(cache.after_post(5, 12, 1, PostOutcome::Delivered), DeliveryAction::Done);
    assert_eq!(cache.after_post(5, 11, 1, PostOutcome::EndpointGone), DeliveryAction::GiveUp);
    // a stale id does not evict the newer endpoint
    assert!(matches!(cache.begin_resolve(5), ResolveStep::Use(_)));
    assert_eq!(cache.after_post(5, 12, 0, PostOutcome::Transient), DeliveryAction::GiveUp);
    assert_eq!(cache.after_post(5, 12, 0, PostOutcome::Permanent), DeliveryAction::GiveUp);
}

#[test]
fn abandoned_provisioning_starts_afresh() {
    let mut cache = EndpointCache::new();
    cache.begin_resolve(5);
    cache.abandon(5);
    assert!(matches!(cache.begin_resolve(5), ResolveStep::Discover));
}
