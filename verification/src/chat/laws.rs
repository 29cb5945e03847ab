//! What holds of the server over whole runs: capacity, unique names, ordered
//! delivery, and who receives what.
use crate::chat::directory::{dir_contains, dir_lookup, lemma_lookup_contains, lemma_remove_effect};
use crate::chat::messages::{
    reason_name_taken, reason_self_dm, reason_server_full, ClientMsgView, ServerMsgView,
};
use crate::chat::model::{
    delivery_actions, index_of, is_live, lemma_index_of, lemma_step_wf, reject, reply, run, step,
    step_connect, step_disconnect, step_message, trace, ActionView, EventView, ServerView,
};
use crate::chat::router::{broadcast_deliveries, dm_outcome, lemma_broadcast_deliveries, DmError};
use vstd::prelude::*;

verus! {

/// The session `id` is live in `s` and has not joined yet.
pub open spec fn is_connecting(s: ServerView, id: u64) -> bool {
    is_live(s.sessions, id) && s.sessions[index_of(s.sessions, id)].name is None
}

/// The session `id` is live in `s` and joined under `name`.
pub open spec fn is_joined_as(s: ServerView, id: u64, name: Seq<char>) -> bool {
    is_live(s.sessions, id) && s.sessions[index_of(s.sessions, id)].name == Some(name)
}

/// What the connection `b` is sent by `actions`, in order.
pub open spec fn outbox(actions: Seq<ActionView>, b: u64) -> Seq<ServerMsgView>
    decreases actions.len(),
{
    if actions.len() == 0 {
        Seq::empty()
    } else {
        let rest = outbox(actions.drop_last(), b);
        match actions.last() {
            ActionView::Send { to, msg } => if to == b {
                rest.push(msg)
            } else {
                rest
            },
            ActionView::Close { id } => rest,
        }
    }
}

/// The events in which the connections `ids`, one after the other, ask to
/// join under the same `name`.
pub open spec fn join_events(ids: Seq<u64>, name: Seq<char>, times: Seq<u64>) -> Seq<
    (EventView, u64),
> {
    Seq::new(
        ids.len(),
        |k: int| (EventView::Message { id: ids[k], msg: ClientMsgView::Join { name } }, times[k]),
    )
}

/// The answers to [`join_events`] on a server where the name is free: the
/// first connection is welcomed, every later one is refused and closed.
pub open spec fn join_answers(ids: Seq<u64>) -> Seq<ActionView>
    decreases ids.len(),
{
    if ids.len() == 0 {
        Seq::empty()
    } else if ids.len() == 1 {
        reply(ids[0], ServerMsgView::Welcome)
    } else {
        join_answers(ids.drop_last()) + reject(ids.last(), reason_name_taken())
    }
}

/// Running two sequences of events one after the other is running their
/// concatenation, and the actions of the first come before those of the second.
pub proof fn lemma_run_append(s: ServerView, e1: Seq<(EventView, u64)>, e2: Seq<(EventView, u64)>)
    ensures
        run(s, e1 + e2) == run(run(s, e1), e2),
        trace(s, e1 + e2) == trace(s, e1) + trace(run(s, e1), e2),
    decreases e2.len(),
{
    if e2.len() == 0 {
        assert(e1 + e2 =~= e1);
        assert(trace(s, e1) + Seq::<ActionView>::empty() =~= trace(s, e1));
    } else {
        lemma_run_append(s, e1, e2.drop_last());
        assert((e1 + e2).drop_last() =~= e1 + e2.drop_last());
        assert((e1 + e2).last() == e2.last());
        let last = step(run(run(s, e1), e2.drop_last()), e2.last().0, e2.last().1).1;
        assert((trace(s, e1) + trace(run(s, e1), e2.drop_last())) + last =~= trace(s, e1) + (trace(
            run(s, e1),
            e2.drop_last(),
        ) + last));
    }
}

/// A single event's run is its step.
pub proof fn lemma_run_one(s: ServerView, event: EventView, now: u64)
    ensures
        run(s, seq![(event, now)]) == step(s, event, now).0,
        trace(s, seq![(event, now)]) == step(s, event, now).1,
{
    let e = seq![(event, now)];
    assert(e.drop_last() =~= Seq::empty());
    assert(e.last() == (event, now));
    assert(run(s, e.drop_last()) == s);
    assert(trace(s, e.drop_last()) =~= Seq::<ActionView>::empty());
    assert(Seq::<ActionView>::empty() + step(s, event, now).1 =~= step(s, event, now).1);
}

/// The outbox of two action sequences, one after the other, is the first
/// outbox followed by the second.
pub proof fn lemma_outbox_append(x: Seq<ActionView>, y: Seq<ActionView>, b: u64)
    ensures
        outbox(x + y, b) == outbox(x, b) + outbox(y, b),
    decreases y.len(),
{
    if y.len() == 0 {
        assert(x + y =~= x);
        assert(outbox(x, b) + Seq::<ServerMsgView>::empty() =~= outbox(x, b));
    } else {
        lemma_outbox_append(x, y.drop_last(), b);
        assert((x + y).drop_last() =~= x + y.drop_last());
        assert((x + y).last() == y.last());
        let r = outbox(y.drop_last(), b);
        match y.last() {
            ActionView::Send { to, msg } => {
                if to == b {
                    assert((outbox(x, b) + r).push(msg) =~= outbox(x, b) + r.push(msg));
                }
            },
            ActionView::Close { id } => {},
        }
    }
}

/// Capacity invariant: whatever events arrive, in whatever order, the server
/// stays well formed; in particular the number of sessions that are
/// connecting or joined never exceeds `max_clients`.
pub proof fn lemma_capacity_invariant(s: ServerView, events: Seq<(EventView, u64)>)
    requires
        s.wf(),
    ensures
        run(s, events).wf(),
        run(s, events).max_clients == s.max_clients,
        run(s, events).sessions.len() <= s.max_clients,
    decreases events.len(),
{
    if events.len() > 0 {
        let before = run(s, events.drop_last());
        lemma_capacity_invariant(s, events.drop_last());
        lemma_step_wf(before, events.last().0, events.last().1);
    }
}

/// Capacity invariant, second half: a connection that arrives while
/// `max_clients` sessions are live is sent `Error("Server is full")` and
/// closed, and the server's state does not change.
pub proof fn lemma_full_server_rejects(s: ServerView, id: u64, now: u64)
    requires
        s.wf(),
        !s.stopped,
        !is_live(s.sessions, id),
        s.sessions.len() == s.max_clients,
    ensures
        step_connect(s, id, now) == (s, reject(id, reason_server_full())),
{
}

/// Below capacity a new connection is admitted without any reply.
pub proof fn lemma_room_admits(s: ServerView, id: u64, now: u64)
    requires
        s.wf(),
        !s.stopped,
        !is_live(s.sessions, id),
        s.sessions.len() < s.max_clients,
    ensures
        step_connect(s, id, now).1 == Seq::<ActionView>::empty(),
        is_connecting(step_connect(s, id, now).0, id),
        step_connect(s, id, now).0.sessions.len() == s.sessions.len() + 1,
{
    let t = step_connect(s, id, now).0;
    lemma_step_wf(s, EventView::Connect { id }, now);
    let n = s.sessions.len() as int;
    assert(t.sessions[n].id == id);
    lemma_index_of(t.sessions, n);
}

/// A `Join` of one connecting session leaves every other connecting session
/// connecting.
pub proof fn lemma_join_frame(s: ServerView, id: u64, name: Seq<char>, now: u64, other: u64)
    requires
        s.wf(),
        is_connecting(s, id),
        is_connecting(s, other),
        other != id,
    ensures
        is_connecting(step_message(s, id, ClientMsgView::Join { name }, now).0, other),
{
    let t = step_message(s, id, ClientMsgView::Join { name }, now).0;
    lemma_step_wf(s, EventView::Message { id, msg: ClientMsgView::Join { name } }, now);
    let i = index_of(s.sessions, id);
    let j = index_of(s.sessions, other);
    if dir_contains(s.directory, name) {
        let j2 = if j < i {
            j
        } else {
            j - 1
        };
        assert(t.sessions[j2] == s.sessions[j]);
        lemma_index_of(t.sessions, j2);
    } else {
        assert(t.sessions[j] == s.sessions[j]);
        lemma_index_of(t.sessions, j);
    }
}

/// After the `Join` of a connecting session the name is taken, by that
/// session if the name was free and by its earlier owner otherwise.
pub proof fn lemma_join_takes_name(s: ServerView, id: u64, name: Seq<char>, now: u64)
    requires
        s.wf(),
        is_connecting(s, id),
    ensures
        dir_contains(step_message(s, id, ClientMsgView::Join { name }, now).0.directory, name),
        step_message(s, id, ClientMsgView::Join { name }, now).1 == if dir_contains(
            s.directory,
            name,
        ) {
            reject(id, reason_name_taken())
        } else {
            reply(id, ServerMsgView::Welcome)
        },
{
    let t = step_message(s, id, ClientMsgView::Join { name }, now).0;
    if !dir_contains(s.directory, name) {
        let n = s.directory.len() as int;
        assert(t.directory[n].0 == name);
    }
}

/// Name uniqueness: when several connecting sessions ask, in any order, to
/// join under one name that is free, exactly the first to be served is
/// welcomed; every other one receives `Error("Username already taken")` and
/// is closed.
pub proof fn lemma_concurrent_joins(
    s: ServerView,
    ids: Seq<u64>,
    name: Seq<char>,
    times: Seq<u64>,
)
    requires
        s.wf(),
        ids.len() == times.len(),
        ids.no_duplicates(),
        forall|k: int| 0 <= k < ids.len() ==> is_connecting(s, #[trigger] ids[k]),
    ensures
        run(s, join_events(ids, name, times)).wf(),
        forall|other: u64|
            is_connecting(s, other) && !ids.contains(other) ==> is_connecting(
                run(s, join_events(ids, name, times)),
                other,
            ),
        ids.len() >= 1 || dir_contains(s.directory, name) ==> dir_contains(
            run(s, join_events(ids, name, times)).directory,
            name,
        ),
        !dir_contains(s.directory, name) ==> trace(s, join_events(ids, name, times))
            == join_answers(ids),
    decreases ids.len(),
{
    let events = join_events(ids, name, times);
    if ids.len() > 0 {
        let n = ids.len() - 1;
        let head = ids.drop_last();
        let head_times = times.drop_last();
        let id = ids.last();
        assert(events.drop_last() =~= join_events(head, name, head_times));
        assert(events.last() == (
            EventView::Message { id, msg: ClientMsgView::Join { name } },
            times.last(),
        ));
        assert forall|k: int| 0 <= k < head.len() implies is_connecting(s, #[trigger] head[k]) by {
            assert(head[k] == ids[k]);
        }
        lemma_concurrent_joins(s, head, name, head_times);
        let mid = run(s, join_events(head, name, head_times));
        assert(!head.contains(id)) by {
            if head.contains(id) {
                let k = choose|k: int| 0 <= k < head.len() && head[k] == id;
                assert(ids[k] == ids[n]);
            }
        }
        assert(is_connecting(s, ids[n]));
        assert(is_connecting(mid, id));
        lemma_step_wf(mid, events.last().0, events.last().1);
        lemma_join_takes_name(mid, id, name, times.last());
        assert forall|other: u64| is_connecting(s, other) && !ids.contains(other) implies is_connecting(
            run(s, events),
            other,
        ) by {
            assert(!head.contains(other)) by {
                if head.contains(other) {
                    let k = choose|k: int| 0 <= k < head.len() && head[k] == other;
                    assert(ids[k] == other);
                }
            }
            assert(other != id) by {
                if other == id {
                    assert(ids[n] == other);
                }
            }
            lemma_join_frame(mid, id, name, times.last(), other);
        }
        if !dir_contains(s.directory, name) {
            if head.len() == 0 {
                assert(mid == s);
                assert(Seq::<ActionView>::empty() + reply(id, ServerMsgView::Welcome) =~= reply(
                    id,
                    ServerMsgView::Welcome,
                ));
                assert(ids[0] == id);
            }
        }
    }
}

/// DM ordering: when the user `from` sends `first` to the user `to`, and
/// later, after any other events, sends `second`, the recipient's connection
/// is sent `first` before everything that the events in between bring it, and
/// `second` after all of that.
pub proof fn lemma_dm_ordering(
    s: ServerView,
    a: u64,
    from: Seq<char>,
    to: Seq<char>,
    b: u64,
    first: Seq<char>,
    second: Seq<char>,
    t1: u64,
    t2: u64,
    between: Seq<(EventView, u64)>,
)
    requires
        s.wf(),
        from != to,
        is_joined_as(s, a, from),
        dir_lookup(s.directory, to) == Some(b),
        ({
            let e1 = EventView::Message { id: a, msg: ClientMsgView::SendDM { to, message: first } };
            let later = run(step(s, e1, t1).0, between);
            is_joined_as(later, a, from) && dir_lookup(later.directory, to) == Some(b)
        }),
    ensures
        ({
            let e1 = EventView::Message { id: a, msg: ClientMsgView::SendDM { to, message: first } };
            let e2 = EventView::Message {
                id: a,
                msg: ClientMsgView::SendDM { to, message: second },
            };
            let all = seq![(e1, t1)] + between + seq![(e2, t2)];
            outbox(trace(s, all), b) == seq![
                ServerMsgView::Message { from, message: first },
            ] + outbox(trace(step(s, e1, t1).0, between), b) + seq![
                ServerMsgView::Message { from, message: second },
            ]
        }),
{
    let e1 = EventView::Message { id: a, msg: ClientMsgView::SendDM { to, message: first } };
    let e2 = EventView::Message { id: a, msg: ClientMsgView::SendDM { to, message: second } };
    let s1 = step(s, e1, t1).0;
    let later = run(s1, between);
    let head = seq![(e1, t1)];
    let tail = seq![(e2, t2)];
    let m1 = ServerMsgView::Message { from, message: first };
    let m2 = ServerMsgView::Message { from, message: second };
    lemma_run_one(s, e1, t1);
    lemma_run_one(later, e2, t2);
    lemma_run_append(s, head, between);
    lemma_run_append(s, head + between, tail);
    assert(step(s, e1, t1).1 == reply(b, m1));
    assert(step(later, e2, t2).1 == reply(b, m2));
    let x = reply(b, m1);
    let y = trace(s1, between);
    let z = reply(b, m2);
    assert(trace(s, head + between + tail) == x + y + z);
    lemma_outbox_append(x + y, z, b);
    lemma_outbox_append(x, y, b);
    assert(outbox(x, b) =~= seq![m1]) by {
        assert(x.drop_last() =~= Seq::empty());
        assert(outbox(x.drop_last(), b) =~= Seq::empty());
    }
    assert(outbox(z, b) =~= seq![m2]) by {
        assert(z.drop_last() =~= Seq::empty());
        assert(outbox(z.drop_last(), b) =~= Seq::empty());
    }
}

/// Self-DM rejection: a direct message to the sender's own name is refused
/// whatever the directory holds, even when it holds nothing.
pub proof fn lemma_self_dm_any_directory(
    d: crate::chat::directory::DirView,
    me: Seq<char>,
    text: Seq<char>,
)
    ensures
        dm_outcome(d, me, me, text) == Err::<crate::chat::router::DeliveryView, DmError>(
            DmError::SelfDm,
        ),
{
}

/// Self-DM rejection: a joined session that addresses a direct message to its
/// own name is answered with `Error("Cannot send a DM to yourself")`, nobody
/// else is sent anything, and the session stays open.
pub proof fn lemma_self_dm_rejected(s: ServerView, id: u64, me: Seq<char>, text: Seq<char>, now: u64)
    requires
        s.wf(),
        is_joined_as(s, id, me),
    ensures
        step_message(s, id, ClientMsgView::SendDM { to: me, message: text }, now).1 == reply(
            id,
            ServerMsgView::Error(reason_self_dm()),
        ),
        is_joined_as(
            step_message(s, id, ClientMsgView::SendDM { to: me, message: text }, now).0,
            id,
            me,
        ),
{
    let msg = ClientMsgView::SendDM { to: me, message: text };
    let t = step_message(s, id, msg, now).0;
    let i = index_of(s.sessions, id);
    lemma_step_wf(s, EventView::Message { id, msg }, now);
    assert(t.sessions[i].id == id);
    lemma_index_of(t.sessions, i);
}

/// Broadcast exclusion: a broadcast is sent to every joined session except
/// the broadcaster's own, and to nobody else; the broadcaster never receives
/// its own broadcast.
pub proof fn lemma_broadcast_excludes_sender(
    s: ServerView,
    id: u64,
    me: Seq<char>,
    text: Seq<char>,
    now: u64,
)
    requires
        s.wf(),
        is_joined_as(s, id, me),
    ensures
        ({
            let out = step_message(s, id, ClientMsgView::Broadcast { message: text }, now).1;
            &&& forall|k: int|
                0 <= k < out.len() ==> {
                    &&& #[trigger] out[k] matches ActionView::Send { to, msg }
                    &&& to != id
                    &&& msg == (ServerMsgView::Message { from: me, message: text })
                    &&& is_live(s.sessions, to)
                }
            &&& outbox(out, id) == Seq::<ServerMsgView>::empty()
            &&& forall|j: int|
                0 <= j < s.sessions.len() && (#[trigger] s.sessions[j]).name is Some
                    && s.sessions[j].id != id ==> exists|k: int|
                    0 <= k < out.len() && #[trigger] out[k] == (ActionView::Send {
                        to: s.sessions[j].id,
                        msg: ServerMsgView::Message { from: me, message: text },
                    })
        }),
{
    let out = step_message(s, id, ClientMsgView::Broadcast { message: text }, now).1;
    let d = s.directory;
    let ss = s.sessions;
    let i = index_of(ss, id);
    let ds = broadcast_deliveries(d, me, text);
    let m = ServerMsgView::Message { from: me, message: text };
    lemma_broadcast_deliveries(d, me, text);
    assert(out == delivery_actions(ds));
    assert forall|k: int| 0 <= k < out.len() implies {
        &&& #[trigger] out[k] matches ActionView::Send { to, msg }
        &&& to != id
        &&& msg == m
        &&& is_live(ss, to)
    } by {
        let b = ds[k];
        let e = choose|e: int| 0 <= e < d.len() && (#[trigger] d[e]).1 == b.target && d[e].0 != me;
        assert(crate::chat::model::owned(ss, d[e]));
        let o = choose|o: int|
            0 <= o < ss.len() && (#[trigger] ss[o]).id == d[e].1 && ss[o].name == Some(d[e].0);
        if b.target == id {
            lemma_index_of(ss, o);
        }
    }
    lemma_outbox_none(out, id);
    assert forall|j: int|
        0 <= j < ss.len() && (#[trigger] ss[j]).name is Some && ss[j].id != id implies exists|k: int|
        0 <= k < out.len() && #[trigger] out[k] == (ActionView::Send { to: ss[j].id, msg: m }) by {
        let nj = ss[j].name->0;
        assert(dir_lookup(d, nj) == Some(ss[j].id));
        assert(dir_lookup(d, me) == Some(id)) by {
            assert(ss[i].name is Some);
        }
        assert(nj != me);
        lemma_lookup_contains(d, nj);
        let e = choose|e: int| 0 <= e < d.len() && #[trigger] d[e] == (nj, ss[j].id);
        assert(d[e].0 != me);
        let k = choose|k: int| 0 <= k < ds.len() && (#[trigger] ds[k]).target == d[e].1;
        assert(out[k] == (ActionView::Send { to: ss[j].id, msg: m }));
    }
}

/// Actions none of which is sent to `b` leave `b`'s outbox empty.
pub proof fn lemma_outbox_none(actions: Seq<ActionView>, b: u64)
    requires
        forall|k: int|
            0 <= k < actions.len() ==> (#[trigger] actions[k] matches ActionView::Send { to, msg }
                ==> to != b),
    ensures
        outbox(actions, b) == Seq::<ServerMsgView>::empty(),
    decreases actions.len(),
{
    if actions.len() > 0 {
        let p = actions.drop_last();
        assert forall|k: int| 0 <= k < p.len() implies (#[trigger] p[k] matches ActionView::Send {
            to,
            msg,
        } ==> to != b) by {
            assert(p[k] == actions[k]);
        }
        lemma_outbox_none(p, b);
        assert(actions.last() == actions[actions.len() - 1]);
    }
}

/// Directory reuse: as soon as a joined user's connection is gone, a
/// connecting session that asks for the same name is welcomed under it.
pub proof fn lemma_name_reusable(
    s: ServerView,
    leaver: u64,
    name: Seq<char>,
    newcomer: u64,
    now: u64,
)
    requires
        s.wf(),
        is_joined_as(s, leaver, name),
        is_connecting(s, newcomer),
    ensures
        ({
            let gone = step_disconnect(s, leaver).0;
            &&& !dir_contains(gone.directory, name)
            &&& step_message(gone, newcomer, ClientMsgView::Join { name }, now).1 == reply(
                newcomer,
                ServerMsgView::Welcome,
            )
            &&& is_joined_as(
                step_message(gone, newcomer, ClientMsgView::Join { name }, now).0,
                newcomer,
                name,
            )
        }),
{
    let gone = step_disconnect(s, leaver).0;
    let i = index_of(s.sessions, leaver);
    let j = index_of(s.sessions, newcomer);
    lemma_step_wf(s, EventView::Disconnect { id: leaver }, now);
    lemma_remove_effect(s.directory, name, name);
    assert(i != j);
    let j2 = if j < i {
        j
    } else {
        j - 1
    };
    assert(gone.sessions[j2] == s.sessions[j]);
    lemma_index_of(gone.sessions, j2);
    let msg = ClientMsgView::Join { name };
    let t = step_message(gone, newcomer, msg, now).0;
    lemma_step_wf(gone, EventView::Message { id: newcomer, msg }, now);
    assert(t.sessions[j2].id == newcomer);
    lemma_index_of(t.sessions, j2);
}

/// Shutdown closes every live session, leaves none behind, and is idempotent:
/// a second shutdown has nothing left to do.
pub proof fn lemma_shutdown_closes_all(s: ServerView)
    requires
        s.wf(),
    ensures
        ({
            let (t, out) = crate::chat::model::step_shutdown(s);
            &&& t.stopped
            &&& t.sessions.len() == 0
            &&& t.directory.len() == 0
            &&& out.len() == s.sessions.len()
            &&& forall|k: int|
                0 <= k < out.len() ==> #[trigger] out[k] == (ActionView::Close {
                    id: s.sessions[k].id,
                })
            &&& crate::chat::model::step_shutdown(t) == (t, Seq::<ActionView>::empty())
        }),
{
    let (t, out) = crate::chat::model::step_shutdown(s);
    assert(crate::chat::model::step_shutdown(t).1 =~= Seq::<ActionView>::empty());
}

} // verus!
