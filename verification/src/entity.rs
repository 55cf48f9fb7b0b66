//! The entity supervisor: the single point of entry for commands addressed
//! to entities of one kind.
//!
//! The supervisor decides and the runtime acts. Each event that reaches the
//! supervisor (its start, a command, a tick of the passivation timer) is put
//! to one of the functions below together with the time at which it arrived;
//! the function moves the supervisor to its next state and answers with what
//! the runtime is to do. The supervisor is borrowed mutably for each event,
//! so events are handled strictly one after the other.

use vstd::prelude::*;
use vstd::string::*;
use config::Config;
use crate::clock::Timestamp;
use crate::registry::{
    activated,
    active_part,
    distinct_ids,
    entries_map,
    idle_part,
    touched,
    EntityInstance,
    Instances,
    Registry,
};
use crate::settings::{settings_of, sleep_after_setting, ConfigFault, EntityActorConfig};

verus! {

/// The period of the passivation timer, in seconds. It does not depend on
/// the passivation window.
pub const TICK_PERIOD_SECS: u64 = 60;

/// The factory of workers: for an entity identifier it gives what the
/// runtime needs to build that entity's worker.
///
/// `props` is called anew for every activation, also for an identifier that
/// was live before: the supervisor keeps nothing of what it returned.
pub trait EntityActorProps: Clone + Send + Sync {
    /// The commands that the workers take.
    type Msg;

    /// What the runtime builds a worker from.
    type Prod;

    /// Whether `prod` is what this factory gives for `id`. A factory that
    /// states nothing of its products leaves this as it is.
    open spec fn builds(&self, id: Seq<char>, prod: Self::Prod) -> bool {
        true
    }

    fn props(&self, id: String) -> (prod: Self::Prod)
        ensures
            self.builds(id@, prod),
    ;
}

/// What the supervisor reads of a message that reached it.
pub enum Inbound<M> {
    /// A command `1` for the entity `0`.
    Cmd(String, M),
    /// The passivation timer fired.
    Tick,
    /// Any other message.
    Other,
}

/// A one-shot timer to arm: after `delay_secs` seconds it sends the
/// supervisor one [`Inbound::Tick`].
#[derive(Clone, Copy, Debug, PartialEq, Eq, Structural)]
pub struct TickSchedule {
    pub delay_secs: u64,
}

/// What the runtime is to do after an event.
pub enum Action<W, M, P> {
    /// Deliver `payload` to the live worker of `id`.
    Forward { id: String, payload: M },
    /// Create a worker named `id` from `prod`, deliver `payload` to it, and
    /// report the worker with [`EntityActor::activated`].
    Activate { id: String, prod: P, payload: M },
    /// Stop the worker of each entry of `stopped`, then arm the timer.
    Passivate { stopped: Vec<(String, EntityInstance<W>)>, next: TickSchedule },
    /// Nothing.
    Ignore,
}

/// The supervisor of one kind of entity. `W` is the runtime's handle to a
/// worker.
pub struct EntityActor<Pro, W> {
    name: String,
    props: Pro,
    instances: Registry<W>,
    sleep_after_secs: u64,
}

/// The supervisor as a mathematical object.
pub struct EntityActorView<Pro, W> {
    pub name: Seq<char>,
    pub props: Pro,
    pub instances: Instances<W>,
    pub sleep_after_secs: u64,
}

impl<Pro, W> View for EntityActor<Pro, W> {
    type V = EntityActorView<Pro, W>;

    closed spec fn view(&self) -> EntityActorView<Pro, W> {
        EntityActorView {
            name: self.name@,
            props: self.props,
            instances: self.instances@,
            sleep_after_secs: self.sleep_after_secs,
        }
    }
}

/// Routing a command `cmd` for `id` at `now`. A live worker is reused: the
/// command is forwarded to it and its last use becomes `now`. Otherwise a
/// worker is to be created from what the factory gives for `id`, and the
/// registry waits for it.
pub open spec fn routes<Pro: EntityActorProps, W>(
    before: EntityActorView<Pro, W>,
    id: String,
    cmd: Pro::Msg,
    now: Timestamp,
    after: EntityActorView<Pro, W>,
    action: Action<W, Pro::Msg, Pro::Prod>,
) -> bool {
    if before.instances.contains_key(id@) {
        &&& action == (Action::<W, Pro::Msg, Pro::Prod>::Forward { id, payload: cmd })
        &&& after == (EntityActorView { instances: touched(before.instances, id@, now), ..before })
    } else {
        &&& action matches Action::Activate { id: named, prod, payload }
        &&& named == id
        &&& payload == cmd
        &&& before.props.builds(id@, prod)
        &&& after == before
    }
}

/// A sweep at `now`. The entries that are idle past the window leave the
/// registry and are handed out as `stopped`, each once; the others stay as
/// they are.
pub open spec fn sweeps<Pro, W>(
    before: EntityActorView<Pro, W>,
    now: Timestamp,
    after: EntityActorView<Pro, W>,
    stopped: Seq<(String, EntityInstance<W>)>,
) -> bool {
    &&& distinct_ids(stopped)
    &&& entries_map(stopped) == idle_part(before.instances, now, before.sleep_after_secs)
    &&& after == (EntityActorView {
        instances: active_part(before.instances, now, before.sleep_after_secs),
        ..before
    })
}

impl<Pro: EntityActorProps, W> EntityActor<Pro, W> {
    /// The supervisor `name` at its start: no worker is live.
    pub fn actor(args: (String, Pro, EntityActorConfig)) -> (actor: Self)
        ensures
            actor@ == (EntityActorView {
                name: args.0@,
                props: args.1,
                instances: Map::<Seq<char>, EntityInstance<W>>::empty(),
                sleep_after_secs: args.2.sleep_after_secs,
            }),
    {
        let (name, instance_fact, conf) = args;
        EntityActor {
            name,
            props: instance_fact,
            instances: Registry::new(),
            sleep_after_secs: conf.sleep_after_secs,
        }
    }

    /// Routes the command `cmd` for the entity `id`, which arrived at `now`.
    pub fn handle_cmd(&mut self, id: String, cmd: Pro::Msg, now: Timestamp) -> (action: Action<
        W,
        Pro::Msg,
        Pro::Prod,
    >)
        ensures
            routes(old(self)@, id, cmd, now, final(self)@, action),
    {
        if self.instances.touch(&id, now) {
            Action::Forward { id, payload: cmd }
        } else {
            let prod = self.props.props(id.clone());
            Action::Activate { id, prod, payload: cmd }
        }
    }

    /// Enters the worker `actor` that the runtime created for `id` on an
    /// [`Action::Activate`] answered at `now`. Should `id` have a live worker
    /// already, that worker stays and `actor` is handed back.
    pub fn activated(&mut self, id: String, actor: W, now: Timestamp) -> (rejected: Option<W>)
        ensures
            old(self)@.instances.contains_key(id@) ==> rejected == Some(actor) && final(self)@
                == old(self)@,
            !old(self)@.instances.contains_key(id@) ==> rejected.is_none() && final(self)@ == (
            EntityActorView {
                instances: activated(old(self)@.instances, id@, actor, now),
                ..old(self)@
            }),
    {
        self.instances.activate(id, actor, now)
    }

    /// The timer to arm at the supervisor's start and after every sweep.
    pub fn schedule_tick() -> (next: TickSchedule)
        ensures
            next == (TickSchedule { delay_secs: TICK_PERIOD_SECS }),
    {
        TickSchedule { delay_secs: TICK_PERIOD_SECS }
    }

    /// Sweeps the registry at `now` and hands out the entries whose workers
    /// are to be stopped.
    pub fn sleep_instances(&mut self, now: Timestamp) -> (stopped: Vec<
        (String, EntityInstance<W>),
    >)
        ensures
            sweeps(old(self)@, now, final(self)@, stopped@),
    {
        self.instances.drain_idle(now, self.sleep_after_secs)
    }

    /// The supervisor starts: the timer is armed for the first sweep.
    pub fn pre_start(&self) -> (next: TickSchedule)
        ensures
            next == (TickSchedule { delay_secs: TICK_PERIOD_SECS }),
    {
        Self::schedule_tick()
    }

    /// Handles one message that arrived at `now`. A command is routed. A
    /// tick sweeps the registry and arms the timer again, once and only
    /// after the sweep. Any other message is ignored.
    pub fn other_receive(&mut self, msg: Inbound<Pro::Msg>, now: Timestamp) -> (action: Action<
        W,
        Pro::Msg,
        Pro::Prod,
    >)
        ensures
            match msg {
                Inbound::Cmd(id, cmd) => routes(old(self)@, id, cmd, now, final(self)@, action),
                Inbound::Tick => {
                    &&& action matches Action::Passivate { stopped, next }
                    &&& sweeps(old(self)@, now, final(self)@, stopped@)
                    &&& next == (TickSchedule { delay_secs: TICK_PERIOD_SECS })
                },
                Inbound::Other => action is Ignore && final(self)@ == old(self)@,
            },
    {
        match msg {
            Inbound::Cmd(id, cmd) => self.handle_cmd(id, cmd, now),
            Inbound::Tick => {
                let stopped = self.sleep_instances(now);
                Action::Passivate { stopped, next: Self::schedule_tick() }
            },
            Inbound::Other => Action::Ignore,
        }
    }

    /// The instance of `id`, if it has a live worker. The runtime finds here
    /// the worker to forward a command to.
    pub fn instance(&self, id: &String) -> (found: Option<&EntityInstance<W>>)
        ensures
            match found {
                Some(instance) => self@.instances.contains_key(id@) && *instance
                    == self@.instances[id@],
                None => !self@.instances.contains_key(id@),
            },
    {
        self.instances.get(id)
    }

    /// The number of live workers.
    pub fn running(&self) -> (n: usize)
        ensures
            self@.instances.dom().finite(),
            n == self@.instances.dom().len(),
    {
        self.instances.len()
    }

    /// The name of the kind of entity that this supervisor is for.
    pub fn name(&self) -> (name: &String)
        ensures
            name@ == self@.name,
    {
        &self.name
    }

    /// The passivation window in seconds.
    pub fn sleep_after_secs(&self) -> (secs: u64)
        ensures
            secs == self@.sleep_after_secs,
    {
        self.sleep_after_secs
    }
}

/// What the runtime needs to register a supervisor: the name to register it
/// under, and the arguments from which [`EntityActor::actor`] builds it.
pub struct Registration<Pro> {
    pub actor_name: String,
    pub args: (String, Pro, EntityActorConfig),
}

/// The entry point for setting up a supervisor.
pub struct Entity;

impl Entity {
    /// Prepares the supervisor `name` with the factory `instance_fact`. The
    /// passivation window is read from `sys_config` in any case; `conf`, where
    /// given, takes its place. The supervisor is registered as `entity-`
    /// followed by `name`.
    pub fn new<Pro: EntityActorProps>(
        sys_config: &Config,
        instance_fact: Pro,
        name: &str,
        conf: Option<EntityActorConfig>,
    ) -> (prepared: Result<Registration<Pro>, ConfigFault>)
        ensures
            match settings_of(sleep_after_setting(*sys_config)) {
                Err(fault) => prepared == Err::<Registration<Pro>, ConfigFault>(fault),
                Ok(read) => {
                    &&& prepared matches Ok(registration)
                    &&& registration.actor_name@ == "entity-"@ + name@
                    &&& registration.args.0@ == name@
                    &&& registration.args.1 == instance_fact
                    &&& registration.args.2 == match conf {
                        Some(given) => given,
                        None => read,
                    }
                },
            },
    {
        match EntityActorConfig::from_config(sys_config) {
            Err(fault) => Err(fault),
            Ok(read) => {
                let conf = match conf {
                    Some(given) => given,
                    None => read,
                };
                let mut actor_name = "entity-".to_owned();
                actor_name.append(name);
                Ok(Registration { actor_name, args: (name.to_owned(), instance_fact, conf) })
            },
        }
    }
}

} // verus!
