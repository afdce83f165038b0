//! The hub: the coordinator that owns all workers, routes every message
//! according to the configured mapping, and drives the ordered
//! multi-phase shutdown.
//!
//! The routing decisions are pure and fully verified here; the embedding
//! program owns the threads and channels, feeds every received message
//! into [`MailHub::handle_message`], and carries out the returned
//! actions.

use crate::config::{named_entry_exists, routes_valid, ConfigContainer, RetryAgentConfig};
use crate::mail::{Mail, MailModel};
use vstd::prelude::*;

verus! {

/// A message on the hub inbox.
pub enum HubMessage {
    /// A source harvested a new mail.
    NewMail { srcname: String, mail: Mail },
    /// The retry agent re-emits a buffered mail whose delay has elapsed.
    RetryMail { dstname: String, mail: Mail },
    /// A destination failed to deliver a mail and hands it back.
    SendingMailFailed { dstname: String, mail: Mail },
    /// Exit the steady-state loop and begin the ordered shutdown.
    Shutdown,
    /// The retry agent confirms a previously requested suspension.
    RetryAgentSuspended,
}

/// A message on a destination's inbox.
pub enum DestinationMessage {
    Mail { mail: Mail },
}

/// A message on a source's control channel.  No value is ever sent:
/// the closure of the channel is the only stop signal, and the single
/// variant below exists only because the channel must carry some type.
pub enum SourceMessage {
    Unused,
}

/// A message on the retry agent's control channel.
pub enum RetryAgentMessage {
    /// Buffer this mail and re-emit it to the hub after the configured
    /// delay.
    QueueMail { dstname: String, mail: Mail },
    /// Stop re-emitting buffered mails, but keep accepting `QueueMail`.
    /// The agent must acknowledge with `RetryAgentSuspended` on the hub
    /// inbox.  Used during shutdown so destinations can quiesce.
    Suspend,
}

/// A worker whose background thread can be awaited.
pub trait MailAgent {
    fn join(&mut self);
}

/// An outgoing effect the hub asks its embedding to perform.
pub enum HubAction {
    /// Put the mail on the named destination's inbox.
    Deliver { dstname: String, mail: Mail },
    /// Hand the mail to the retry agent.
    QueueRetry { dstname: String, mail: Mail },
}

/// The mathematical content of a [`HubAction`].
pub enum HubActionModel {
    Deliver { dstname: Seq<char>, mail: MailModel },
    QueueRetry { dstname: Seq<char>, mail: MailModel },
}

impl View for HubAction {
    type V = HubActionModel;

    open spec fn view(&self) -> HubActionModel {
        match self {
            HubAction::Deliver { dstname, mail } => HubActionModel::Deliver {
                dstname: dstname@,
                mail: mail@,
            },
            HubAction::QueueRetry { dstname, mail } => HubActionModel::QueueRetry {
                dstname: dstname@,
                mail: mail@,
            },
        }
    }
}

/// The views of a vector of actions.
pub open spec fn actions_model(v: Vec<HubAction>) -> Seq<HubActionModel> {
    v@.map_values(|a: HubAction| a@)
}

/// The routing table as mathematics: each entry a source name and its
/// ordered target names.
pub open spec fn mappings_model(v: Vec<(String, Vec<String>)>) -> Seq<(Seq<char>, Seq<Seq<char>>)> {
    v@.map_values(|p: (String, Vec<String>)| (p.0@, p.1@.map_values(|s: String| s@)))
}

/// The names in `v`, as character sequences.
pub open spec fn names_model(v: Vec<String>) -> Seq<Seq<char>> {
    v@.map_values(|s: String| s@)
}

/// The target list of the first mapping entry named `src`; empty when no
/// entry is.
pub open spec fn lookup_targets(maps: Seq<(Seq<char>, Seq<Seq<char>>)>, src: Seq<char>) -> Seq<
    Seq<char>,
>
    decreases maps.len(),
{
    if maps.len() == 0 {
        Seq::empty()
    } else if maps[0].0 == src {
        maps[0].1
    } else {
        lookup_targets(maps.skip(1), src)
    }
}

/// The actions the hub owes for one `NewMail` message: one delivery per
/// mapped target, in target-list order, each carrying the same mail.
pub open spec fn route_new_mail(
    maps: Seq<(Seq<char>, Seq<Seq<char>>)>,
    src: Seq<char>,
    m: MailModel,
) -> Seq<HubActionModel> {
    Seq::new(
        lookup_targets(maps, src).len(),
        |i: int| HubActionModel::Deliver { dstname: lookup_targets(maps, src)[i], mail: m },
    )
}

/// The actions the hub owes for any one message.
pub open spec fn route_message(
    maps: Seq<(Seq<char>, Seq<Seq<char>>)>,
    has_retryagent: bool,
    msg: HubMessage,
) -> Seq<HubActionModel> {
    match msg {
        HubMessage::NewMail { srcname, mail } => route_new_mail(maps, srcname@, mail@),
        HubMessage::RetryMail { dstname, mail } => seq![
            HubActionModel::Deliver { dstname: dstname@, mail: mail@ },
        ],
        HubMessage::SendingMailFailed { dstname, mail } => if has_retryagent {
            seq![HubActionModel::QueueRetry { dstname: dstname@, mail: mail@ }]
        } else {
            Seq::empty()
        },
        HubMessage::Shutdown => Seq::empty(),
        HubMessage::RetryAgentSuspended => Seq::empty(),
    }
}

/// Whether a message ends the current receive loop: `Shutdown` ends the
/// steady state, `RetryAgentSuspended` ends the drain that awaits it.
pub open spec fn message_exits(msg: HubMessage) -> bool {
    msg is Shutdown || msg is RetryAgentSuspended
}

/// The coordinator's routing state: the mapping table, the configured
/// worker names, and whether a retry agent exists.  The workers
/// themselves live with the embedding; the hub only decides.
pub struct MailHub {
    pub mappings: Vec<(String, Vec<String>)>,
    pub source_names: Vec<String>,
    pub destination_names: Vec<String>,
    pub has_retryagent: bool,
}

impl MailHub {
    /// Every name a mapping entry can route to is a configured
    /// destination.
    pub open spec fn wf(&self) -> bool {
        forall|i: int, j: int|
            0 <= i < mappings_model(self.mappings).len() && 0 <= j < mappings_model(
                self.mappings,
            )[i].1.len() ==> names_model(self.destination_names).contains(
                #[trigger] mappings_model(self.mappings)[i].1[j],
            )
    }

    /// Builds the routing state from a validated configuration: the
    /// mapping table and the worker names are taken over unchanged.
    /// The embedding builds its workers from the same configuration
    /// before handing it over.
    pub fn from_config(config: ConfigContainer) -> (hub: MailHub)
        ensures
            hub.mappings == config.mappings,
            names_model(hub.source_names) == config.sources@.map_values(
                |p: (String, crate::config::SourceConfig)| p.0@,
            ),
            names_model(hub.destination_names) == config.destinations@.map_values(
                |p: (String, crate::config::DestinationConfig)| p.0@,
            ),
            hub.has_retryagent == (config.retryagent is Some),
            routes_valid(config) ==> hub.wf(),
    {
        let mut source_names: Vec<String> = Vec::new();
        let ns = config.sources.len();
        for i in 0..ns
            invariant
                ns == config.sources.len(),
                source_names@.len() == i,
                forall|k: int|
                    0 <= k < i ==> #[trigger] source_names@[k]@ == config.sources@[k].0@,
        {
            source_names.push(config.sources[i].0.clone());
        }
        let mut destination_names: Vec<String> = Vec::new();
        let nd = config.destinations.len();
        for i in 0..nd
            invariant
                nd == config.destinations.len(),
                destination_names@.len() == i,
                forall|k: int|
                    0 <= k < i ==> #[trigger] destination_names@[k]@ == config.destinations@[k].0@,
        {
            destination_names.push(config.destinations[i].0.clone());
        }
        let has_retryagent = config.retryagent.is_some();
        let hub = MailHub {
            mappings: config.mappings,
            source_names,
            destination_names,
            has_retryagent,
        };
        proof {
            assert(names_model(hub.source_names) =~= config.sources@.map_values(
                |p: (String, crate::config::SourceConfig)| p.0@,
            ));
            assert(names_model(hub.destination_names) =~= config.destinations@.map_values(
                |p: (String, crate::config::DestinationConfig)| p.0@,
            ));
            if routes_valid(config) {
                lemma_valid_config_hub_wf(config, hub);
            }
        }
        hub
    }

    /// Dispatches one hub-inbox message: returns the owed actions and
    /// whether the current receive loop must end.  When the routing
    /// state is well formed, every delivery targets a configured
    /// destination, so the embedding's sends cannot dangle.
    pub fn handle_message(&self, msg: HubMessage) -> (r: (Vec<HubAction>, bool))
        ensures
            actions_model(r.0) == route_message(
                mappings_model(self.mappings),
                self.has_retryagent,
                msg,
            ),
            r.1 == message_exits(msg),
            self.wf() ==> forall|k: int|
                0 <= k < actions_model(r.0).len() && actions_model(r.0)[k] is Deliver && !(msg
                    is RetryMail) ==> names_model(self.destination_names).contains(
                    (#[trigger] actions_model(r.0)[k])->Deliver_dstname,
                ),
    {
        match msg {
            HubMessage::Shutdown => (Vec::new(), true),
            HubMessage::RetryAgentSuspended => (Vec::new(), true),
            HubMessage::NewMail { srcname, mail } => {
                let mut actions: Vec<HubAction> = Vec::new();
                let found = self.find_mapping(&srcname);
                match found {
                    Some(i) => {
                        proof {
                            lemma_lookup_targets_at(
                                mappings_model(self.mappings),
                                srcname@,
                                i as int,
                            );
                        }
                        let targets = &self.mappings[i].1;
                        let nt = targets.len();
                        for j in 0..nt
                            invariant
                                i < self.mappings.len(),
                                nt == targets.len(),
                                targets@ == self.mappings@[i as int].1@,
                                lookup_targets(mappings_model(self.mappings), srcname@)
                                    == mappings_model(self.mappings)[i as int].1,
                                actions@.len() == j,
                                forall|k: int|
                                    0 <= k < j ==> #[trigger] actions@[k]@
                                        == (HubActionModel::Deliver {
                                        dstname: targets@[k]@,
                                        mail: mail@,
                                    }),
                        {
                            actions.push(
                                HubAction::Deliver { dstname: targets[j].clone(), mail: mail.clone() },
                            );
                        }
                        proof {
                            assert(actions_model(actions) =~= route_new_mail(
                                mappings_model(self.mappings),
                                srcname@,
                                mail@,
                            ));
                            if self.wf() {
                                assert(forall|k: int|
                                    0 <= k < actions_model(actions).len()
                                        ==> names_model(self.destination_names).contains(
                                        (#[trigger] actions_model(actions)[k])->Deliver_dstname,
                                    ));
                            }
                        }
                        (actions, false)
                    },
                    None => {
                        proof {
                            lemma_lookup_targets_absent(mappings_model(self.mappings), srcname@);
                            assert(actions_model(actions) =~= route_new_mail(
                                mappings_model(self.mappings),
                                srcname@,
                                mail@,
                            ));
                        }
                        (actions, false)
                    },
                }
            },
            HubMessage::SendingMailFailed { dstname, mail } => {
                let mut actions: Vec<HubAction> = Vec::new();
                if self.has_retryagent {
                    actions.push(HubAction::QueueRetry { dstname, mail });
                    proof {
                        assert(actions_model(actions) =~= route_message(
                            mappings_model(self.mappings),
                            self.has_retryagent,
                            msg,
                        ));
                    }
                } else {
                    proof {
                        assert(actions_model(actions) =~= Seq::<HubActionModel>::empty());
                    }
                }
                (actions, false)
            },
            HubMessage::RetryMail { dstname, mail } => {
                let mut actions: Vec<HubAction> = Vec::new();
                actions.push(HubAction::Deliver { dstname, mail });
                proof {
                    assert(actions_model(actions) =~= route_message(
                        mappings_model(self.mappings),
                        self.has_retryagent,
                        msg,
                    ));
                }
                (actions, false)
            },
        }
    }

    /// The position of the first mapping entry named `srcname`, if any.
    fn find_mapping(&self, srcname: &String) -> (r: Option<usize>)
        ensures
            match r {
                Some(i) => i < self.mappings@.len() && self.mappings@[i as int].0@ == srcname@
                    && forall|k: int| 0 <= k < i ==> self.mappings@[k].0@ != srcname@,
                None => forall|k: int|
                    0 <= k < self.mappings@.len() ==> self.mappings@[k].0@ != srcname@,
            },
    {
        let n = self.mappings.len();
        for i in 0..n
            invariant
                n == self.mappings.len(),
                forall|k: int| 0 <= k < i ==> self.mappings@[k].0@ != srcname@,
        {
            if self.mappings[i].0.eq(srcname) {
                return Some(i);
            }
        }
        None
    }
}

/// In a routing table whose first entry named `src` stands at `i`, the
/// lookup yields that entry's target list.
proof fn lemma_lookup_targets_at(maps: Seq<(Seq<char>, Seq<Seq<char>>)>, src: Seq<char>, i: int)
    requires
        0 <= i < maps.len(),
        maps[i].0 == src,
        forall|k: int| 0 <= k < i ==> maps[k].0 != src,
    ensures
        lookup_targets(maps, src) == maps[i].1,
    decreases i,
{
    if i == 0 {
    } else {
        lemma_lookup_targets_at(maps.skip(1), src, i - 1);
    }
}

/// In a routing table without an entry named `src`, the lookup yields
/// nothing.
proof fn lemma_lookup_targets_absent(maps: Seq<(Seq<char>, Seq<Seq<char>>)>, src: Seq<char>)
    requires
        forall|k: int| 0 <= k < maps.len() ==> maps[k].0 != src,
    ensures
        lookup_targets(maps, src) == Seq::<Seq<char>>::empty(),
    decreases maps.len(),
{
    if maps.len() > 0 {
        lemma_lookup_targets_absent(maps.skip(1), src);
    }
}

/// One step of the ordered shutdown that follows the steady state.
pub enum ShutdownStep {
    /// Close every per-source control channel, then join each source.
    /// Afterwards no further `NewMail` can be posted.
    StopSources,
    /// Send `Suspend` to the retry agent, then keep receiving and
    /// dispatching hub messages until `RetryAgentSuspended` arrives.
    /// Afterwards no further `RetryMail` can be posted; destinations
    /// may still hold undelivered mail.
    SuspendRetryAgent,
    /// Close every destination inbox, then join each destination; a
    /// destination drains its inbox to completion first.  Afterwards no
    /// further delivery or failure report can be generated.
    StopDestinations,
    /// Consume every remaining hub-inbox message without blocking and
    /// dispatch it normally: late failure reports become `QueueRetry`
    /// for the still-running, still-suspended retry agent.
    FlushInbox,
    /// Close the retry agent's control channel, then join it.
    StopRetryAgent,
}

/// The ordered shutdown: exactly these five steps, in exactly this
/// order.  The order is what guarantees that every mail a source
/// emitted is delivered or handed to the retry agent before anything
/// that could receive it goes away.
pub fn shutdown_sequence() -> (steps: Vec<ShutdownStep>)
    ensures
        steps@.len() == 5,
        steps@[0] is StopSources,
        steps@[1] is SuspendRetryAgent,
        steps@[2] is StopDestinations,
        steps@[3] is FlushInbox,
        steps@[4] is StopRetryAgent,
{
    let mut steps: Vec<ShutdownStep> = Vec::new();
    steps.push(ShutdownStep::StopSources);
    steps.push(ShutdownStep::SuspendRetryAgent);
    steps.push(ShutdownStep::StopDestinations);
    steps.push(ShutdownStep::FlushInbox);
    steps.push(ShutdownStep::StopRetryAgent);
    steps
}

/// The mails of the delivery actions aimed at destination `dst`, in
/// order.
pub open spec fn deliveries_to(actions: Seq<HubActionModel>, dst: Seq<char>) -> Seq<MailModel>
    decreases actions.len(),
{
    if actions.len() == 0 {
        Seq::empty()
    } else {
        let rest = deliveries_to(actions.skip(1), dst);
        match actions[0] {
            HubActionModel::Deliver { dstname, mail } => if dstname == dst {
                seq![mail] + rest
            } else {
                rest
            },
            _ => rest,
        }
    }
}

/// The actions the hub emits for a whole sequence of new-mail events,
/// each event a source name and a mail, in event order.
pub open spec fn new_mail_actions(
    maps: Seq<(Seq<char>, Seq<Seq<char>>)>,
    events: Seq<(Seq<char>, MailModel)>,
) -> Seq<HubActionModel>
    decreases events.len(),
{
    if events.len() == 0 {
        Seq::empty()
    } else {
        route_new_mail(maps, events[0].0, events[0].1) + new_mail_actions(maps, events.skip(1))
    }
}

/// How often `dst` occurs in `names`.
pub open spec fn count_name(names: Seq<Seq<char>>, dst: Seq<char>) -> nat
    decreases names.len(),
{
    if names.len() == 0 {
        0
    } else {
        (if names[0] == dst {
            1nat
        } else {
            0nat
        }) + count_name(names.skip(1), dst)
    }
}

/// `k` copies of the mail `m`.
pub open spec fn repeated(m: MailModel, k: nat) -> Seq<MailModel> {
    Seq::new(k, |i: int| m)
}

/// The deliveries destination `dst` is owed for a sequence of new-mail
/// events: each event's mail, repeated once per occurrence of `dst` in
/// the target list of the event's source, in event order.
pub open spec fn owed_deliveries(
    maps: Seq<(Seq<char>, Seq<Seq<char>>)>,
    events: Seq<(Seq<char>, MailModel)>,
    dst: Seq<char>,
) -> Seq<MailModel>
    decreases events.len(),
{
    if events.len() == 0 {
        Seq::empty()
    } else {
        repeated(events[0].1, count_name(lookup_targets(maps, events[0].0), dst))
            + owed_deliveries(maps, events.skip(1), dst)
    }
}

/// Deliveries distribute over concatenation of action streams.
proof fn lemma_deliveries_to_concat(a: Seq<HubActionModel>, b: Seq<HubActionModel>, dst: Seq<char>)
    ensures
        deliveries_to(a + b, dst) == deliveries_to(a, dst) + deliveries_to(b, dst),
    decreases a.len(),
{
    if a.len() == 0 {
        assert(a + b =~= b);
        assert(deliveries_to(a, dst) + deliveries_to(b, dst) =~= deliveries_to(b, dst));
    } else {
        assert((a + b).skip(1) =~= a.skip(1) + b);
        lemma_deliveries_to_concat(a.skip(1), b, dst);
        assert((a + b)[0] == a[0]);
        match a[0] {
            HubActionModel::Deliver { dstname, mail } => {
                if dstname == dst {
                    assert(seq![mail] + (deliveries_to(a.skip(1), dst) + deliveries_to(b, dst))
                        =~= (seq![mail] + deliveries_to(a.skip(1), dst)) + deliveries_to(b, dst));
                }
            },
            _ => {},
        }
    }
}

/// Fanning one mail out along a target list delivers it to `dst` once
/// per occurrence of `dst` in that list.
proof fn lemma_fanout_one(targets: Seq<Seq<char>>, m: MailModel, dst: Seq<char>)
    ensures
        deliveries_to(
            Seq::new(targets.len(), |i: int| HubActionModel::Deliver { dstname: targets[i], mail: m }),
            dst,
        ) == repeated(m, count_name(targets, dst)),
    decreases targets.len(),
{
    let actions = Seq::new(
        targets.len(),
        |i: int| HubActionModel::Deliver { dstname: targets[i], mail: m },
    );
    if targets.len() == 0 {
        assert(repeated(m, 0) =~= Seq::<MailModel>::empty());
    } else {
        lemma_fanout_one(targets.skip(1), m, dst);
        assert(actions.skip(1) =~= Seq::new(
            targets.skip(1).len(),
            |i: int| HubActionModel::Deliver { dstname: targets.skip(1)[i], mail: m },
        ));
        if targets[0] == dst {
            assert(seq![m] + repeated(m, count_name(targets.skip(1), dst)) =~= repeated(
                m,
                count_name(targets, dst),
            ));
        }
    }
}

/// Fan-out correctness: over any sequence of new-mail events, the
/// deliveries the hub emits toward a destination are exactly the mails
/// of the events whose source routes to that destination — each
/// repeated once per occurrence of the destination in the source's
/// target list, in event order.  In particular, with duplicate-free
/// target lists, every destination observes precisely the mails mapped
/// to it, once each, counted with multiplicity over the events.
pub proof fn lemma_fanout_correctness(
    maps: Seq<(Seq<char>, Seq<Seq<char>>)>,
    events: Seq<(Seq<char>, MailModel)>,
    dst: Seq<char>,
)
    ensures
        deliveries_to(new_mail_actions(maps, events), dst) == owed_deliveries(maps, events, dst),
    decreases events.len(),
{
    if events.len() > 0 {
        lemma_deliveries_to_concat(
            route_new_mail(maps, events[0].0, events[0].1),
            new_mail_actions(maps, events.skip(1)),
            dst,
        );
        lemma_fanout_one(lookup_targets(maps, events[0].0), events[0].1, dst);
        lemma_fanout_correctness(maps, events.skip(1), dst);
    }
}

/// A hub built from a configuration with referential integrity is well
/// formed: its mapping can only route to configured destinations.
proof fn lemma_valid_config_hub_wf(config: ConfigContainer, hub: MailHub)
    requires
        routes_valid(config),
        mappings_model(hub.mappings) == mappings_model(config.mappings),
        names_model(hub.destination_names) == config.destinations@.map_values(
            |p: (String, crate::config::DestinationConfig)| p.0@,
        ),
    ensures
        hub.wf(),
{
    assert forall|i: int, j: int|
        0 <= i < mappings_model(hub.mappings).len() && 0 <= j < mappings_model(
            hub.mappings,
        )[i].1.len() implies names_model(hub.destination_names).contains(
        #[trigger] mappings_model(hub.mappings)[i].1[j],
    ) by {
        assert(crate::config::mapping_entry_resolves(config, i));
        assert(named_entry_exists(config.destinations@, config.mappings@[i].1@[j]@));
        let w = choose|w: int|
            0 <= w < config.destinations@.len() && config.destinations@[w].0@
                == config.mappings@[i].1@[j]@;
        assert(names_model(hub.destination_names)[w] == mappings_model(hub.mappings)[i].1[j]);
    }
}

} // verus!
