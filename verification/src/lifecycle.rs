//! The life of an entity as the registry records it: absent, live from its
//! first command on, absent again once a sweep finds it idle.
//!
//! The lemmas here are stated over the registry as a map and over the
//! relations [`routes`] and [`sweeps`] by which the supervisor's functions
//! are specified.

use vstd::prelude::*;
use vstd::set_lib::{lemma_len_subset, lemma_set_disjoint_lens};
use crate::clock::{idle_at, window_nanos, Timestamp};
use crate::entity::{routes, sweeps, Action, EntityActorProps, EntityActorView};
use crate::registry::{
    activated,
    active_part,
    idle_part,
    lemma_entries_len,
    touched,
    EntityInstance,
    Instances,
};

verus! {

/// A command as the registry sees it: the entity it is for, the worker that
/// the runtime creates should the entity need one, and the time of arrival.
pub struct Command<W> {
    pub id: Seq<char>,
    pub fresh: W,
    pub at: Timestamp,
}

/// The registry after one command was routed and, where a worker had to be
/// created, that worker was entered.
pub open spec fn route<W>(m: Instances<W>, c: Command<W>) -> Instances<W> {
    if m.contains_key(c.id) {
        touched(m, c.id, c.at)
    } else {
        activated(m, c.id, c.fresh, c.at)
    }
}

/// The registry after the commands `cs` were routed one after the other.
pub open spec fn route_all<W>(m: Instances<W>, cs: Seq<Command<W>>) -> Instances<W>
    decreases cs.len(),
{
    if cs.len() == 0 {
        m
    } else {
        route(route_all(m, cs.drop_last()), cs.last())
    }
}

/// How often, while `cs` were routed, a worker was created for `id`.
pub open spec fn creations<W>(m: Instances<W>, cs: Seq<Command<W>>, id: Seq<char>) -> nat
    decreases cs.len(),
{
    if cs.len() == 0 {
        0
    } else if cs.last().id == id && !route_all(m, cs.drop_last()).contains_key(id) {
        creations(m, cs.drop_last(), id) + 1
    } else {
        creations(m, cs.drop_last(), id)
    }
}

/// The two steps by which the supervisor routes a command amount to
/// [`route`]: a forwarded command leaves the registry as `route` says, and
/// so does an activation once the new worker is entered.
pub proof fn lemma_route_steps<Pro: EntityActorProps, W>(
    before: EntityActorView<Pro, W>,
    id: String,
    cmd: Pro::Msg,
    now: Timestamp,
    after: EntityActorView<Pro, W>,
    action: Action<W, Pro::Msg, Pro::Prod>,
    fresh: W,
)
    requires
        routes(before, id, cmd, now, after, action),
    ensures
        action is Forward ==> after.instances == route(
            before.instances,
            Command { id: id@, fresh, at: now },
        ),
        action is Activate ==> activated(after.instances, id@, fresh, now) == route(
            before.instances,
            Command { id: id@, fresh, at: now },
        ),
        action is Forward || action is Activate,
{
}

/// Routing keeps what is live: whatever commands arrive, in whatever order,
/// an entity with a live worker still has that very worker afterwards.
pub proof fn lemma_worker_is_kept<W>(m: Instances<W>, cs: Seq<Command<W>>, id: Seq<char>)
    requires
        m.contains_key(id),
    ensures
        route_all(m, cs).contains_key(id),
        route_all(m, cs)[id].actor == m[id].actor,
    decreases cs.len(),
{
    if cs.len() > 0 {
        lemma_worker_is_kept(m, cs.drop_last(), id);
    }
}

/// At most one worker: whatever commands arrive, in whatever order, at most
/// one worker is created for an entity, and none for an entity that has
/// one.
pub proof fn lemma_at_most_one_worker<W>(m: Instances<W>, cs: Seq<Command<W>>, id: Seq<char>)
    ensures
        creations(m, cs, id) <= 1,
        m.contains_key(id) ==> creations(m, cs, id) == 0,
        creations(m, cs, id) == 1 ==> route_all(m, cs).contains_key(id),
    decreases cs.len(),
{
    if cs.len() > 0 {
        let earlier = cs.drop_last();
        lemma_at_most_one_worker(m, earlier, id);
        if m.contains_key(id) {
            lemma_worker_is_kept(m, earlier, id);
        }
    }
}

/// A command for an entity with a live worker reuses that worker and sets
/// its last use to the time of the command; no other entity is touched.
pub proof fn lemma_reuse<W>(m: Instances<W>, c: Command<W>)
    requires
        m.contains_key(c.id),
    ensures
        route(m, c)[c.id] == (EntityInstance { last_used: c.at, actor: m[c.id].actor }),
        route(m, c).dom() == m.dom(),
        forall|other: Seq<char>| other != c.id && m.contains_key(other) ==> route(m, c)[other] == m[other],
{
    assert(route(m, c).dom() =~= m.dom());
}

/// An entity without a command for longer than the window is evicted by the
/// next sweep, and its worker is among those handed out to be stopped.
pub proof fn lemma_idle_is_evicted<W>(
    m: Instances<W>,
    id: Seq<char>,
    now: Timestamp,
    sleep_after_secs: u64,
)
    requires
        m.contains_key(id),
        now.nanos - m[id].last_used.nanos > window_nanos(sleep_after_secs),
    ensures
        !active_part(m, now, sleep_after_secs).contains_key(id),
        idle_part(m, now, sleep_after_secs).contains_key(id),
        idle_part(m, now, sleep_after_secs)[id] == m[id],
{
}

/// An entity that took a command at `c.at` is not evicted by a sweep up to
/// one window later: it stays as the command left it.
pub proof fn lemma_recent_is_kept<W>(
    m: Instances<W>,
    c: Command<W>,
    now: Timestamp,
    sleep_after_secs: u64,
)
    requires
        now.nanos <= c.at.nanos + window_nanos(sleep_after_secs),
    ensures
        active_part(route(m, c), now, sleep_after_secs).contains_key(c.id),
        active_part(route(m, c), now, sleep_after_secs)[c.id] == route(m, c)[c.id],
        !idle_part(route(m, c), now, sleep_after_secs).contains_key(c.id),
{
}

/// A second sweep at the same time finds nothing to evict and changes
/// nothing.
pub proof fn lemma_sweep_twice<W>(m: Instances<W>, now: Timestamp, sleep_after_secs: u64)
    ensures
        idle_part(active_part(m, now, sleep_after_secs), now, sleep_after_secs)
            == Map::<Seq<char>, EntityInstance<W>>::empty(),
        active_part(active_part(m, now, sleep_after_secs), now, sleep_after_secs) == active_part(
            m,
            now,
            sleep_after_secs,
        ),
{
    let once = active_part(m, now, sleep_after_secs);
    assert(idle_part(once, now, sleep_after_secs) =~= Map::<
        Seq<char>,
        EntityInstance<W>,
    >::empty());
    assert(active_part(once, now, sleep_after_secs) =~= once);
}

/// No entity is evicted twice: of two sweeps without a command between
/// them, whenever they happen, the second evicts none of the entities that
/// the first evicted.
pub proof fn lemma_evicted_once<W>(
    m: Instances<W>,
    first: Timestamp,
    second: Timestamp,
    sleep_after_secs: u64,
    id: Seq<char>,
)
    requires
        idle_part(m, first, sleep_after_secs).contains_key(id),
    ensures
        !idle_part(
            active_part(m, first, sleep_after_secs),
            second,
            sleep_after_secs,
        ).contains_key(id),
{
}

/// A sweep splits the registry: every entry is either evicted or retained,
/// none is both, and none is altered.
pub proof fn lemma_sweep_splits<W>(
    m: Instances<W>,
    now: Timestamp,
    sleep_after_secs: u64,
    id: Seq<char>,
)
    ensures
        m.contains_key(id) <==> (idle_part(m, now, sleep_after_secs).contains_key(id)
            || active_part(m, now, sleep_after_secs).contains_key(id)),
        !(idle_part(m, now, sleep_after_secs).contains_key(id) && active_part(
            m,
            now,
            sleep_after_secs,
        ).contains_key(id)),
        idle_part(m, now, sleep_after_secs).contains_key(id) ==> idle_part(
            m,
            now,
            sleep_after_secs,
        )[id] == m[id],
        active_part(m, now, sleep_after_secs).contains_key(id) ==> active_part(
            m,
            now,
            sleep_after_secs,
        )[id] == m[id],
{
}

/// What a sweep reports: the number of workers handed out to be stopped is
/// the number by which the registry shrinks.
pub proof fn lemma_sweep_count<Pro, W>(
    before: EntityActorView<Pro, W>,
    now: Timestamp,
    after: EntityActorView<Pro, W>,
    stopped: Seq<(String, EntityInstance<W>)>,
)
    requires
        before.instances.dom().finite(),
        sweeps(before, now, after, stopped),
    ensures
        after.instances.dom().finite(),
        stopped.len() == before.instances.dom().len() - after.instances.dom().len(),
{
    let all = before.instances.dom();
    let idle = idle_part(before.instances, now, before.sleep_after_secs).dom();
    let active = after.instances.dom();
    assert(idle.subset_of(all));
    assert(active.subset_of(all));
    lemma_len_subset(idle, all);
    lemma_len_subset(active, all);
    assert(idle.disjoint(active));
    assert(idle + active =~= all);
    lemma_set_disjoint_lens(idle, active);
    lemma_entries_len(stopped);
}

/// After its eviction an entity is activated like one that never was live:
/// its next command enters the worker that is created then, with the time
/// of that command, and nothing of the evicted instance remains.
pub proof fn lemma_reactivation<W>(
    m: Instances<W>,
    now: Timestamp,
    sleep_after_secs: u64,
    c: Command<W>,
)
    requires
        m.contains_key(c.id),
        idle_at(m[c.id].last_used, now, sleep_after_secs),
    ensures
        !active_part(m, now, sleep_after_secs).contains_key(c.id),
        route(active_part(m, now, sleep_after_secs), c)[c.id] == (EntityInstance {
            last_used: c.at,
            actor: c.fresh,
        }),
        route(active_part(m, now, sleep_after_secs), c)[c.id] == route(
            Map::<Seq<char>, EntityInstance<W>>::empty(),
            c,
        )[c.id],
{
}

/// The supervisor asks for a new worker after an eviction: when a sweep has
/// evicted an entity, the next command for it is answered by an activation
/// with what the factory gives for the entity, as its first command was.
pub proof fn lemma_reactivation_asks_factory<Pro: EntityActorProps, W>(
    before: EntityActorView<Pro, W>,
    now: Timestamp,
    swept: EntityActorView<Pro, W>,
    stopped: Seq<(String, EntityInstance<W>)>,
    id: String,
    cmd: Pro::Msg,
    at: Timestamp,
    after: EntityActorView<Pro, W>,
    action: Action<W, Pro::Msg, Pro::Prod>,
)
    requires
        before.instances.contains_key(id@),
        idle_at(before.instances[id@].last_used, now, before.sleep_after_secs),
        sweeps(before, now, swept, stopped),
        routes(swept, id, cmd, at, after, action),
    ensures
        action matches Action::Activate { id: named, prod, payload } && named == id && payload
            == cmd && before.props.builds(id@, prod),
        after == swept,
{
}

} // verus!
