//! Closed-loop runs of the coordination core: the hub, a destination
//! and the retry agent wired together synchronously, with the clock as
//! a plain number.  These are the library's own end-to-end arguments:
//! the delivery/failure/retry feedback loop terminates with an exact
//! attempt count, and a suspended retry agent holds what the shutdown
//! flush hands it.

use crate::dest::TestDestinationState;
use crate::hub::{actions_model, lookup_targets, mappings_model, HubAction, HubMessage, MailHub};
use crate::mail::Mail;
use crate::retry::{queue_model, RetryAgentState};
use vstd::prelude::*;

verus! {

/// What a closed-loop run observed.
pub struct RetryScenarioOutcome {
    pub attempts: u64,
    pub failures_reported: u64,
    pub retries_emitted: u64,
}

/// A hub with one source `src`, one destination `dst`, and the mapping
/// `src -> [dst]`.
fn single_route_hub(src: &String, dst: &String) -> (hub: MailHub)
    ensures
        hub.has_retryagent,
        lookup_targets(mappings_model(hub.mappings), src@) =~= seq![dst@],
{
    let mut targets: Vec<String> = Vec::new();
    targets.push(dst.clone());
    let mut mappings: Vec<(String, Vec<String>)> = Vec::new();
    mappings.push((src.clone(), targets));
    let mut source_names: Vec<String> = Vec::new();
    source_names.push(src.clone());
    let mut destination_names: Vec<String> = Vec::new();
    destination_names.push(dst.clone());
    let hub = MailHub { mappings, source_names, destination_names, has_retryagent: true };
    proof {
        assert(mappings_model(hub.mappings).len() == 1);
        assert(mappings_model(hub.mappings)[0].0 == src@);
        assert(mappings_model(hub.mappings)[0].1 =~= seq![dst@]);
        assert(lookup_targets(mappings_model(hub.mappings), src@) =~= seq![dst@]);
    }
    hub
}

/// At-least-once delivery under transient failure, run in full: one
/// source emits one mail into a hub routed to one destination that
/// fails its first `fail_n_first` attempts; a retry agent with delay
/// `delay` buffers each failure and re-emits it when due.  The mail is
/// eventually accepted, after exactly `fail_n_first + 1` delivery
/// attempts, `fail_n_first` failure reports and `fail_n_first`
/// re-emissions; the retry queue ends empty.  The happy path is the
/// instance `fail_n_first == 0`: one attempt, no retry traffic.
pub fn run_transient_retry_scenario(fail_n_first: u16, delay: u64, data: Vec<u8>) -> (r:
    RetryScenarioOutcome)
    requires
        (fail_n_first as int) * (delay as int) + delay as int <= u64::MAX,
    ensures
        r.attempts == fail_n_first as u64 + 1,
        r.failures_reported == fail_n_first as u64,
        r.retries_emitted == fail_n_first as u64,
{
    let src = String::from_str("src");
    let dst = String::from_str("dst");
    let hub = single_route_hub(&src, &dst);
    let mail = Mail::from_rfc822(src.clone(), data);
    let ghost mail_model = mail@;
    let mut dstate = TestDestinationState { fails_remaining: fail_n_first };
    let mut agent = RetryAgentState::new_empty(delay);
    let mut now: u64 = 0;
    let mut attempts: u64 = 0;
    let mut failures_reported: u64 = 0;
    let mut retries_emitted: u64 = 0;

    // The source emits; the hub fans the mail out to its one target.
    let (mut actions, _) = hub.handle_message(HubMessage::NewMail { srcname: src.clone(), mail });
    proof {
        assert(actions_model(actions).len() == 1);
        assert(actions_model(actions)[0] matches crate::hub::HubActionModel::Deliver {
            dstname,
            mail: m,
        } && dstname == dst@ && m == mail_model);
        assert(actions@[0]@ == actions_model(actions)[0]);
    }
    let first_action = actions.remove(0);
    let mut current: Mail = match first_action {
        HubAction::Deliver { dstname: _, mail } => mail,
        _ => vstd::pervasive::unreached(),
    };
    loop
        invariant_except_break
            attempts == fail_n_first - dstate.fails_remaining,
            failures_reported == attempts,
            retries_emitted == attempts,
            now == attempts * delay,
        invariant
            dstate.fails_remaining <= fail_n_first,
            (fail_n_first as int) * (delay as int) + delay as int <= u64::MAX,
            current@ == mail_model,
            agent.mode is Running,
            agent.delay == delay,
            queue_model(agent.queue).len() == 0,
            agent.wf(),
            hub.has_retryagent,
            lookup_targets(mappings_model(hub.mappings), src@) =~= seq![dst@],
        ensures
            attempts == fail_n_first as u64 + 1,
            failures_reported == fail_n_first as u64,
            retries_emitted == fail_n_first as u64,
        decreases dstate.fails_remaining,
    {
        let accepted = dstate.deliver(&current);
        attempts = attempts + 1;
        if accepted {
            break;
        }
        // The destination hands the mail back; the hub queues it for
        // retry.
        let (mut acts, _) = hub.handle_message(
            HubMessage::SendingMailFailed { dstname: dst.clone(), mail: current },
        );
        proof {
            assert(actions_model(acts).len() == 1);
            assert(acts@[0]@ == actions_model(acts)[0]);
        }
        let act = acts.remove(0);
        let (qdst, qmail) = match act {
            HubAction::QueueRetry { dstname, mail } => (dstname, mail),
            _ => vstd::pervasive::unreached(),
        };
        failures_reported = failures_reported + 1;
        // The retry agent buffers the failure, due one delay later.
        proof {
            assert((attempts as int) * (delay as int) <= (fail_n_first as int) * (delay as int))
                by (nonlinear_arith)
                requires
                    attempts as int <= fail_n_first as int,
                    delay as int >= 0,
            ;
            assert((attempts - 1) * delay + delay == attempts * delay) by (nonlinear_arith);
        }
        agent.enqueue(qdst, qmail, None, now);
        now = now + delay;
        // One scan at the due instant re-emits exactly this entry.
        let ghost pre_collect = queue_model(agent.queue);
        let mut due = agent.collect_due(now);
        proof {
            assert(pre_collect.len() == 1);
            assert(pre_collect[0].due_time == now);
            assert(pre_collect.skip(1).len() == 0);
            assert(crate::retry::due_prefix_len(pre_collect.skip(1), now) == 0);
            assert(crate::retry::due_prefix_len(pre_collect, now) == 1);
            assert(queue_model(due) =~= pre_collect.take(1));
            assert(queue_model(agent.queue) =~= pre_collect.skip(1));
            assert(queue_model(agent.queue).len() == 0);
            assert(queue_model(due).len() == 1);
            assert(due@.len() == 1);
            assert(queue_model(due)[0] == pre_collect.take(1)[0]);
            assert(pre_collect.take(1)[0] == pre_collect[0]);
            assert(due@[0]@ == queue_model(due)[0]);
        }
        let entry = match due.pop() {
            Some(e) => e,
            None => vstd::pervasive::unreached(),
        };
        retries_emitted = retries_emitted + 1;
        // The hub routes the re-emission straight back to the
        // destination.
        let (mut acts2, _) = hub.handle_message(
            HubMessage::RetryMail { dstname: entry.dstname, mail: entry.mail },
        );
        proof {
            assert(actions_model(acts2).len() == 1);
            assert(acts2@[0]@ == actions_model(acts2)[0]);
        }
        let act2 = acts2.remove(0);
        current = match act2 {
            HubAction::Deliver { dstname: _, mail } => mail,
            _ => vstd::pervasive::unreached(),
        };
    }
    RetryScenarioOutcome { attempts, failures_reported, retries_emitted }
}

/// Shutdown safety at the flush step, run in full: a delivery fails
/// while the daemon is shutting down, after the retry agent was
/// suspended.  The flush turns the failure report into a retry handed
/// to the suspended agent, which keeps it — at any later instant a
/// scan emits nothing and the mail is still in the queue.  Nothing a
/// source emitted is dropped.
pub fn run_shutdown_flush_scenario(delay: u64, later: u64, data: Vec<u8>) -> (agent:
    RetryAgentState)
    requires
        delay <= u64::MAX,
    ensures
        agent.mode is Suspended,
        queue_model(agent.queue).len() == 1,
        queue_model(agent.queue)[0].mail.data == data@,
        queue_model(agent.queue)[0].dstname == "dst"@,
{
    let src = String::from_str("src");
    let dst = String::from_str("dst");
    let hub = single_route_hub(&src, &dst);
    let mail = Mail::from_rfc822(src.clone(), data);
    let ghost mail_model = mail@;
    let mut agent = RetryAgentState::new_empty(delay);

    // The source emitted one mail; the hub put it on the destination's
    // inbox.
    let (mut actions, _) = hub.handle_message(
        HubMessage::NewMail { srcname: src.clone(), mail },
    );
    proof {
        assert(actions_model(actions).len() == 1);
        assert(actions@[0]@ == actions_model(actions)[0]);
    }
    let first_action = actions.remove(0);
    let pending: Mail = match first_action {
        HubAction::Deliver { dstname: _, mail } => mail,
        _ => vstd::pervasive::unreached(),
    };

    // A shutdown request ends the steady-state loop.
    let (_, steady_ends) = hub.handle_message(HubMessage::Shutdown);
    proof {
        assert(steady_ends);
    }
    // Sources are stopped and joined; then the retry agent is
    // suspended, and its acknowledgement ends the drain loop.
    let ack = agent.suspend();
    let (_, drain_ends) = hub.handle_message(ack);
    proof {
        assert(drain_ends);
    }
    // Stopping the destinations drains their inboxes: the pending mail
    // is attempted and fails, and the report lands on the hub inbox.
    // The flush dispatches it: the failure becomes a retry in the
    // suspended agent.
    let (mut acts, _) = hub.handle_message(
        HubMessage::SendingMailFailed { dstname: dst.clone(), mail: pending },
    );
    proof {
        assert(actions_model(acts).len() == 1);
        assert(acts@[0]@ == actions_model(acts)[0]);
    }
    let act = acts.remove(0);
    let (qdst, qmail) = match act {
        HubAction::QueueRetry { dstname, mail } => (dstname, mail),
        _ => vstd::pervasive::unreached(),
    };
    agent.enqueue(qdst, qmail, None, 0);
    // The suspended agent never re-emits: a scan at any later instant
    // returns nothing and the queue is untouched.
    let ghost pre_scan = queue_model(agent.queue);
    let none_due = agent.collect_due(later);
    proof {
        assert(none_due@.len() == 0);
        assert(queue_model(agent.queue) == pre_scan);
        assert(queue_model(agent.queue).len() == 1);
        assert(queue_model(agent.queue)[0].mail.data == mail_model.data);
    }
    agent
}

} // verus!
