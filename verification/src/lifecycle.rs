//! The whole lifecycle of the coordination core, run in full: an
//! arbitrary routing table, destinations with arbitrary transient
//! failure counters, an arbitrary burst of emissions, and then the
//! ordered shutdown.  The theorem is the rationale of that ordering:
//! nothing a source emitted is lost — every routed delivery is either
//! accepted by its destination or sits in the suspended retry agent
//! when the daemon stops.

use crate::dest::TestDestinationState;
use crate::hub::{
    actions_model, lookup_targets, mappings_model, names_model, repeated, HubAction, HubMessage,
    MailHub,
};
use crate::mail::{fingerprint_string, Mail, MailModel};
use crate::retry::{queue_model, RetryAgentState, RetryEntryModel};
use vstd::prelude::*;
use vstd::seq_lib::lemma_multiset_commutative;

verus! {

/// The deliveries owed for a burst of emissions: each emission is
/// routed to every target of its source.
pub open spec fn total_routed(
    maps: Seq<(Seq<char>, Seq<Seq<char>>)>,
    events: Seq<(String, Vec<u8>)>,
) -> nat
    decreases events.len(),
{
    if events.len() == 0 {
        0
    } else {
        lookup_targets(maps, events[0].0@).len() + total_routed(maps, events.skip(1))
    }
}

/// Appending one emission adds its own fan-out to the total.
proof fn lemma_total_routed_push(
    maps: Seq<(Seq<char>, Seq<Seq<char>>)>,
    events: Seq<(String, Vec<u8>)>,
    e: (String, Vec<u8>),
)
    ensures
        total_routed(maps, events.push(e)) == total_routed(maps, events) + lookup_targets(
            maps,
            e.0@,
        ).len(),
    decreases events.len(),
{
    let p = events.push(e);
    if events.len() == 0 {
        assert(p[0] == e);
        assert(p.skip(1).len() == 0);
        assert(total_routed(maps, p.skip(1)) == 0);
        assert(total_routed(maps, p) == lookup_targets(maps, e.0@).len());
        assert(total_routed(maps, events) == 0);
    } else {
        lemma_total_routed_push(maps, events.skip(1), e);
        assert(p[0] == events[0]);
        assert(p.skip(1) =~= events.skip(1).push(e));
        assert(total_routed(maps, p) == lookup_targets(maps, events[0].0@).len() + total_routed(
            maps,
            p.skip(1),
        ));
        assert(total_routed(maps, events) == lookup_targets(maps, events[0].0@).len()
            + total_routed(maps, events.skip(1)));
    }
}

/// The mail an emission turns into, as [`Mail::from_rfc822`] builds it.
pub open spec fn emitted_mail(e: (String, Vec<u8>)) -> MailModel {
    MailModel { from_src: e.0@, data: e.1@, hash: fingerprint_string(e.1@) }
}

/// The routed deliveries themselves: each emission's mail, once per
/// target of its source, in emission order.
pub open spec fn routed_mails(
    maps: Seq<(Seq<char>, Seq<Seq<char>>)>,
    events: Seq<(String, Vec<u8>)>,
) -> Seq<MailModel>
    decreases events.len(),
{
    if events.len() == 0 {
        Seq::empty()
    } else {
        repeated(emitted_mail(events[0]), lookup_targets(maps, events[0].0@).len()) + routed_mails(
            maps,
            events.skip(1),
        )
    }
}

/// Appending one emission appends its own deliveries.
proof fn lemma_routed_mails_push(
    maps: Seq<(Seq<char>, Seq<Seq<char>>)>,
    events: Seq<(String, Vec<u8>)>,
    e: (String, Vec<u8>),
)
    ensures
        routed_mails(maps, events.push(e)) == routed_mails(maps, events) + repeated(
            emitted_mail(e),
            lookup_targets(maps, e.0@).len(),
        ),
    decreases events.len(),
{
    let p = events.push(e);
    if events.len() == 0 {
        assert(p[0] == e);
        assert(p.skip(1).len() == 0);
        assert(routed_mails(maps, p.skip(1)) =~= Seq::<MailModel>::empty());
        assert(routed_mails(maps, p) =~= repeated(emitted_mail(e), lookup_targets(
            maps,
            e.0@,
        ).len()));
        assert(routed_mails(maps, events) =~= Seq::<MailModel>::empty());
        assert(routed_mails(maps, events) + repeated(emitted_mail(e), lookup_targets(
            maps,
            e.0@,
        ).len()) =~= repeated(emitted_mail(e), lookup_targets(maps, e.0@).len()));
    } else {
        lemma_routed_mails_push(maps, events.skip(1), e);
        assert(p[0] == events[0]);
        assert(p.skip(1) =~= events.skip(1).push(e));
        assert(routed_mails(maps, p) == repeated(emitted_mail(events[0]), lookup_targets(
            maps,
            events[0].0@,
        ).len()) + routed_mails(maps, p.skip(1)));
        assert(routed_mails(maps, events) == repeated(emitted_mail(events[0]), lookup_targets(
            maps,
            events[0].0@,
        ).len()) + routed_mails(maps, events.skip(1)));
        assert(routed_mails(maps, events) + repeated(emitted_mail(e), lookup_targets(
            maps,
            e.0@,
        ).len()) =~= repeated(emitted_mail(events[0]), lookup_targets(maps, events[0].0@).len())
            + (routed_mails(maps, events.skip(1)) + repeated(emitted_mail(e), lookup_targets(
            maps,
            e.0@,
        ).len())));
    }
}

/// The mails a queue of retry entries holds.
pub open spec fn queue_mails(q: Seq<RetryEntryModel>) -> Seq<MailModel> {
    q.map_values(|e: RetryEntryModel| e.mail)
}

/// The views of the accepted mails.
pub open spec fn delivered_models(v: Vec<Mail>) -> Seq<MailModel> {
    v@.map_values(|m: Mail| m@)
}

/// What the lifecycle left behind.
pub struct LifecycleOutcome {
    /// Every mail a destination accepted, in acceptance order.
    pub delivered: Vec<Mail>,
    /// The retry agent, suspended, holding every failed delivery.
    pub agent: RetryAgentState,
}

/// The position of the first node named `name`, if any.
fn find_node(nodes: &Vec<(String, TestDestinationState)>, name: &String) -> (r: Option<usize>)
    ensures
        match r {
            Some(i) => i < nodes@.len() && nodes@[i as int].0@ == name@,
            None => forall|k: int| 0 <= k < nodes@.len() ==> nodes@[k].0@ != name@,
        },
{
    let n = nodes.len();
    for i in 0..n
        invariant
            n == nodes.len(),
            forall|k: int| 0 <= k < i ==> nodes@[k].0@ != name@,
    {
        if nodes[i].0.eq(name) {
            return Some(i);
        }
    }
    None
}

/// Attempts every delivery of one fanned-out batch, all carrying the
/// mail `em`: each is accepted by its destination or reported, routed
/// through the hub and buffered by the retry agent.  Nothing else
/// changes, and the batch is fully accounted for.
#[verifier::rlimit(50)]
fn fan_out_round(
    hub: &MailHub,
    nodes: &mut Vec<(String, TestDestinationState)>,
    agent: &mut RetryAgentState,
    delivered: &mut Vec<Mail>,
    actions: Vec<HubAction>,
    Ghost(em): Ghost<MailModel>,
)
    requires
        hub.has_retryagent,
        forall|i: int|
            0 <= i < actions@.len() ==> ((#[trigger] actions@[i]@) is Deliver && names_model(
                hub.destination_names,
            ).contains(actions@[i]@->Deliver_dstname) && actions@[i]@->Deliver_mail == em),
        old(agent).mode is Running,
        old(agent).wf(),
        forall|i: int|
            0 <= i < queue_model(old(agent).queue).len() ==> (#[trigger] queue_model(
                old(agent).queue,
            )[i]).due_time == old(agent).delay,
        old(nodes)@.len() == names_model(hub.destination_names).len(),
        forall|k: int|
            0 <= k < old(nodes)@.len() ==> #[trigger] old(nodes)@[k].0@ == names_model(
                hub.destination_names,
            )[k],
    ensures
        final(agent).mode is Running,
        final(agent).delay == old(agent).delay,
        final(agent).wf(),
        forall|i: int|
            0 <= i < queue_model(final(agent).queue).len() ==> (#[trigger] queue_model(
                final(agent).queue,
            )[i]).due_time == old(agent).delay,
        final(nodes)@.len() == old(nodes)@.len(),
        forall|k: int|
            0 <= k < final(nodes)@.len() ==> #[trigger] final(nodes)@[k].0@ == old(
                nodes,
            )@[k].0@,
        final(delivered)@.len() + queue_model(final(agent).queue).len() == old(delivered)@.len()
            + queue_model(old(agent).queue).len() + actions@.len(),
        delivered_models(*final(delivered)).to_multiset().add(
            queue_mails(queue_model(final(agent).queue)).to_multiset(),
        ) == delivered_models(*old(delivered)).to_multiset().add(
            queue_mails(queue_model(old(agent).queue)).to_multiset(),
        ).add(repeated(em, actions@.len() as nat).to_multiset()),
{
    let ghost base_len = delivered@.len() + queue_model(agent.queue).len();
    let ghost base_ms = delivered_models(*delivered).to_multiset().add(
        queue_mails(queue_model(agent.queue)).to_multiset(),
    );
    let ghost names = names_model(hub.destination_names);
    proof {
        broadcast use vstd::seq_lib::group_to_multiset_ensures;
        broadcast use vstd::multiset::group_multiset_axioms;

        assert(repeated(em, 0) =~= Seq::<MailModel>::empty());
        assert(base_ms.add(repeated(em, 0).to_multiset()) =~= base_ms);
    }
    let na = actions.len();
    for j in 0..na
        invariant
            na == actions.len(),
            hub.has_retryagent,
            names == names_model(hub.destination_names),
            forall|i: int|
                0 <= i < actions@.len() ==> ((#[trigger] actions@[i]@) is Deliver && names.contains(
                    actions@[i]@->Deliver_dstname,
                ) && actions@[i]@->Deliver_mail == em),
            delivered@.len() + queue_model(agent.queue).len() == base_len + j,
            delivered_models(*delivered).to_multiset().add(
                queue_mails(queue_model(agent.queue)).to_multiset(),
            ) == base_ms.add(repeated(em, j as nat).to_multiset()),
            agent.mode is Running,
            agent.delay == old(agent).delay,
            agent.wf(),
            forall|i: int|
                0 <= i < queue_model(agent.queue).len() ==> (#[trigger] queue_model(
                    agent.queue,
                )[i]).due_time == old(agent).delay,
            nodes@.len() == old(nodes)@.len(),
            nodes@.len() == names.len(),
            forall|k: int| 0 <= k < nodes@.len() ==> #[trigger] nodes@[k].0@ == names[k],
    {
        proof {
            assert((actions@[j as int]@) is Deliver && names.contains(
                actions@[j as int]@->Deliver_dstname,
            ));
        }
        let (dstname, dmail): (&String, Mail) = match &actions[j] {
            HubAction::Deliver { dstname, mail } => (dstname, mail.clone()),
            _ => vstd::pervasive::unreached(),
        };
        proof {
            assert(dstname@ == actions@[j as int]@->Deliver_dstname);
            assert(dmail@ == actions@[j as int]@->Deliver_mail);
            assert(dmail@ == em);
        }
        let idx = match find_node(nodes, dstname) {
            Some(idx) => idx,
            None => {
                proof {
                    assert(names.contains(dstname@));
                    let w = choose|w: int|
                        0 <= w < names.len() && names[w] == dstname@;
                    assert(nodes@[w].0@ == dstname@);
                }
                vstd::pervasive::unreached()
            },
        };
        let dstname = dstname.clone();
        let ghost pre_nodes = nodes@;
        let mut node = nodes.remove(idx);
        let accepted = node.1.deliver(&dmail);
        nodes.insert(idx, node);
        proof {
            assert(nodes@ =~= pre_nodes.update(idx as int, node));
        }
        let ghost pre_delivered = delivered_models(*delivered);
        let ghost pre_queue = queue_mails(queue_model(agent.queue));
        if accepted {
            delivered.push(dmail);
            proof {
                broadcast use vstd::seq_lib::group_to_multiset_ensures;

                assert(delivered_models(*delivered) =~= pre_delivered.push(em));
                assert(delivered_models(*delivered).to_multiset() =~= pre_delivered.to_multiset()
                    .insert(em));
            }
        } else {
            // The destination reports the failure; the hub hands it to
            // the retry agent, which buffers it.
            let (mut acts, _) = hub.handle_message(
                HubMessage::SendingMailFailed { dstname, mail: dmail },
            );
            proof {
                assert(actions_model(acts).len() == 1);
                assert(acts@[0]@ == actions_model(acts)[0]);
            }
            let act = acts.remove(0);
            let (qdst, qmail) = match act {
                HubAction::QueueRetry { dstname, mail } => (dstname, mail),
                _ => vstd::pervasive::unreached(),
            };
            proof {
                assert(qmail@ == em);
            }
            agent.enqueue(qdst, qmail, None, 0);
            proof {
                broadcast use vstd::seq_lib::group_to_multiset_ensures;

                assert(queue_mails(queue_model(agent.queue)) =~= pre_queue.push(em));
                assert(queue_mails(queue_model(agent.queue)).to_multiset()
                    =~= pre_queue.to_multiset().insert(em));
            }
        }
        proof {
            broadcast use vstd::seq_lib::group_to_multiset_ensures;
            broadcast use vstd::multiset::group_multiset_axioms;

            assert(repeated(em, (j + 1) as nat) =~= repeated(em, j as nat).push(em));
            assert(repeated(em, (j + 1) as nat).to_multiset() =~= repeated(
                em,
                j as nat,
            ).to_multiset().insert(em));
            assert(delivered_models(*delivered).to_multiset().add(
                queue_mails(queue_model(agent.queue)).to_multiset(),
            ) =~= pre_delivered.to_multiset().add(pre_queue.to_multiset()).insert(em));
            assert(pre_delivered.to_multiset().add(pre_queue.to_multiset()) == base_ms.add(
                repeated(em, j as nat).to_multiset(),
            ));
            assert(base_ms.add(repeated(em, j as nat).to_multiset()).insert(em) =~= base_ms.add(
                repeated(em, (j + 1) as nat).to_multiset(),
            ));
            assert(delivered_models(*delivered).to_multiset().add(
                queue_mails(queue_model(agent.queue)).to_multiset(),
            ) =~= base_ms.add(repeated(em, (j + 1) as nat).to_multiset()));
        }
    }
}

/// Shutdown safety over the whole run: a hub routes a burst of
/// emissions through a table `mappings` to destinations that fail
/// their first `fail_n_first` attempts each; failures go to a retry
/// agent whose delay has not yet elapsed when the shutdown begins.
/// After the ordered shutdown — sources stopped, agent suspended and
/// acknowledged, destinations drained, inbox flushed — every routed
/// delivery is accounted for: accepted by its destination or held by
/// the suspended agent.  None is dropped.
#[verifier::rlimit(100)]
pub fn run_lifecycle(
    mappings: Vec<(String, Vec<String>)>,
    destinations: Vec<(String, u16)>,
    emissions: Vec<(String, Vec<u8>)>,
    delay: u64,
) -> (r: LifecycleOutcome)
    requires
        forall|i: int, j: int|
            0 <= i < mappings_model(mappings).len() && 0 <= j < mappings_model(
                mappings,
            )[i].1.len() ==> exists|k: int|
                0 <= k < destinations@.len() && destinations@[k].0@ == #[trigger] mappings_model(
                    mappings,
                )[i].1[j],
    ensures
        r.agent.mode is Suspended,
        r.delivered@.len() + queue_model(r.agent.queue).len() == total_routed(
            mappings_model(mappings),
            emissions@,
        ),
        delivered_models(r.delivered).to_multiset().add(
            queue_mails(queue_model(r.agent.queue)).to_multiset(),
        ) == routed_mails(mappings_model(mappings), emissions@).to_multiset(),
{
    let ghost maps = mappings_model(mappings);
    let ghost all_events = emissions@;

    // The worker registries: one failure counter per destination, the
    // retry agent empty and running.
    let mut nodes: Vec<(String, TestDestinationState)> = Vec::new();
    let mut destination_names: Vec<String> = Vec::new();
    let nd = destinations.len();
    for i in 0..nd
        invariant
            nd == destinations.len(),
            nodes@.len() == i,
            destination_names@.len() == i,
            forall|k: int| 0 <= k < i ==> #[trigger] nodes@[k].0@ == destinations@[k].0@,
            forall|k: int|
                0 <= k < i ==> #[trigger] destination_names@[k]@ == destinations@[k].0@,
    {
        destination_names.push(destinations[i].0.clone());
        nodes.push(
            (
                destinations[i].0.clone(),
                TestDestinationState { fails_remaining: destinations[i].1 },
            ),
        );
    }
    let hub = MailHub {
        mappings,
        source_names: Vec::new(),
        destination_names,
        has_retryagent: true,
    };
    proof {
        assert(hub.wf()) by {
            assert forall|i: int, j: int|
                0 <= i < mappings_model(hub.mappings).len() && 0 <= j < mappings_model(
                    hub.mappings,
                )[i].1.len() implies names_model(hub.destination_names).contains(
                #[trigger] mappings_model(hub.mappings)[i].1[j],
            ) by {
                let k = choose|k: int|
                    0 <= k < destinations@.len() && destinations@[k].0@ == mappings_model(
                        hub.mappings,
                    )[i].1[j];
                assert(names_model(hub.destination_names)[k] == destinations@[k].0@);
            }
        }
    }
    let mut agent = RetryAgentState::new_empty(delay);
    let mut delivered: Vec<Mail> = Vec::new();

    // Steady state: each emission enters the hub as one NewMail and is
    // fanned out; every delivery is attempted at once, and failures
    // flow back through the hub into the retry agent.  The agent's
    // delay has not elapsed, so nothing is re-emitted before shutdown.
    let mut pending = emissions;
    let ghost mut processed: int = 0;
    proof {
        broadcast use vstd::seq_lib::group_to_multiset_ensures;
        broadcast use vstd::multiset::group_multiset_axioms;

        assert(all_events.skip(0) =~= all_events);
        assert(all_events.take(0) =~= Seq::<(String, Vec<u8>)>::empty());
        assert(delivered_models(delivered) =~= Seq::<MailModel>::empty());
        assert(queue_mails(queue_model(agent.queue)) =~= Seq::<MailModel>::empty());
        assert(routed_mails(maps, all_events.take(0)) =~= Seq::<MailModel>::empty());
        assert(delivered_models(delivered).to_multiset().add(
            queue_mails(queue_model(agent.queue)).to_multiset(),
        ) =~= routed_mails(maps, all_events.take(0)).to_multiset());
    }
    while pending.len() > 0
        invariant
            hub.wf(),
            hub.has_retryagent,
            maps == mappings_model(hub.mappings),
            0 <= processed,
            processed + pending@.len() == all_events.len(),
            pending@ =~= all_events.skip(processed),
            delivered@.len() + queue_model(agent.queue).len() == total_routed(
                maps,
                all_events.take(processed),
            ),
            delivered_models(delivered).to_multiset().add(
                queue_mails(queue_model(agent.queue)).to_multiset(),
            ) == routed_mails(maps, all_events.take(processed)).to_multiset(),
            agent.mode is Running,
            agent.delay == delay,
            agent.wf(),
            forall|i: int|
                0 <= i < queue_model(agent.queue).len() ==> (#[trigger] queue_model(
                    agent.queue,
                )[i]).due_time == delay,
            nodes@.len() == names_model(hub.destination_names).len(),
            forall|k: int|
                0 <= k < nodes@.len() ==> #[trigger] nodes@[k].0@ == names_model(
                    hub.destination_names,
                )[k],
        decreases pending.len(),
    {
        let ghost k_event = processed;
        let (srcname, data) = pending.remove(0);
        proof {
            assert(all_events.skip(k_event)[0] == all_events[k_event]);
            assert(pending@ =~= all_events.skip(k_event + 1));
        }
        let ghost srcview = srcname@;
        let mail = Mail::from_rfc822(srcname.clone(), data);
        let (actions, _) = hub.handle_message(HubMessage::NewMail { srcname, mail });
        let ghost targets = lookup_targets(maps, srcview);
        proof {
            assert(srcview == all_events[k_event].0@);
            assert(actions_model(actions).len() == targets.len());
            assert(actions@.len() == actions_model(actions).len());
            assert forall|i: int| 0 <= i < actions@.len() implies ((#[trigger] actions@[i]@)
                is Deliver && names_model(hub.destination_names).contains(
                actions@[i]@->Deliver_dstname,
            )) by {
                assert(actions@[i]@ == actions_model(actions)[i]);
                assert(actions_model(actions)[i] == crate::hub::route_new_mail(
                    maps,
                    srcview,
                    mail@,
                )[i]);
            }
        }
        let ghost em = emitted_mail(all_events[k_event]);
        let ghost pre_combined = delivered_models(delivered).to_multiset().add(
            queue_mails(queue_model(agent.queue)).to_multiset(),
        );
        proof {
            assert(mail@ == em);
            assert forall|i: int| 0 <= i < actions@.len() implies ((#[trigger] actions@[i]@)
                is Deliver && names_model(hub.destination_names).contains(
                actions@[i]@->Deliver_dstname,
            ) && actions@[i]@->Deliver_mail == em) by {
                assert(actions@[i]@ == actions_model(actions)[i]);
                assert(actions_model(actions)[i] == crate::hub::route_new_mail(
                    maps,
                    srcview,
                    mail@,
                )[i]);
            }
        }
        let ghost n_actions = actions@.len();
        fan_out_round(&hub, &mut nodes, &mut agent, &mut delivered, actions, Ghost(em));
        proof {
            assert(delivered_models(delivered).to_multiset().add(
                queue_mails(queue_model(agent.queue)).to_multiset(),
            ) == pre_combined.add(repeated(em, n_actions as nat).to_multiset()));
            assert(n_actions == targets.len());
        }
        proof {
            processed = processed + 1;
            lemma_total_routed_push(maps, all_events.take(k_event), all_events[k_event]);
            lemma_routed_mails_push(maps, all_events.take(k_event), all_events[k_event]);
            assert(all_events.take(k_event).push(all_events[k_event]) =~= all_events.take(
                k_event + 1,
            ));
            lemma_multiset_commutative(
                routed_mails(maps, all_events.take(k_event)),
                repeated(em, targets.len()),
            );
            assert(routed_mails(maps, all_events.take(k_event + 1)).to_multiset()
                =~= routed_mails(maps, all_events.take(k_event)).to_multiset().add(
                repeated(em, targets.len()).to_multiset(),
            ));
        }
    }
    proof {
        assert(all_events.take(processed) =~= all_events);
    }

    // Ordered shutdown: sources are already silent; the retry agent is
    // suspended and acknowledges; the acknowledgement ends the drain;
    // destinations hold no queued mail (each delivery was attempted);
    // the flush finds the inbox empty; the agent is stopped last, its
    // queue intact.
    let ack = agent.suspend();
    let (_, drain_ends) = hub.handle_message(ack);
    proof {
        assert(drain_ends);
    }
    let ghost pre_scan = queue_model(agent.queue);
    let none_due = agent.collect_due(0);
    proof {
        assert(queue_model(agent.queue) == pre_scan);
        assert(none_due@.len() == 0);
    }
    LifecycleOutcome { delivered, agent }
}

} // verus!
