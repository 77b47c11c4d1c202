//! A mathematical model of a conforming control service.
//!
//! The model is spec-level only: a server state, one transition function
//! saying how each command changes it, one reply function saying what a
//! conforming service answers, and drivers that run a whole session step by
//! step against the model. The laws module proves the library's guarantees
//! over this model: the round trip through a replace-all, the idempotence of
//! enable and disable, the clean-toxics guarantee of an apply scope, the
//! scoped-disable guarantee, and the clean baseline of a fetch.

use vstd::prelude::*;

use crate::channel::{ClientErrorView, CommandView, PayloadView, ReplyView};
use crate::proxy::ProxyView;
use crate::toxic::ToxicView;

verus! {

/// State of a conforming control service: the registered proxies and the
/// version text it reports.
#[verifier::ext_equal]
pub struct ServerView {
    pub proxies: Seq<ProxyView>,
    pub version: Seq<char>,
}

/// Some registered proxy carries this name.
pub open spec fn has_proxy(ps: Seq<ProxyView>, name: Seq<char>) -> bool {
    exists|i: int| 0 <= i < ps.len() && ps[i].name == name
}

/// The registered proxy carrying this name.
pub open spec fn proxy_at(ps: Seq<ProxyView>, name: Seq<char>) -> ProxyView
    recommends
        has_proxy(ps, name),
{
    ps[choose|i: int| 0 <= i < ps.len() && ps[i].name == name]
}

/// No two proxies of the set share a name.
pub open spec fn unique_names(ps: Seq<ProxyView>) -> bool {
    forall|i: int, j: int| 0 <= i < j < ps.len() ==> ps[i].name != ps[j].name
}

/// Proxy names are unique: the name is the key of the proxy set.
pub open spec fn wf_server(s: ServerView) -> bool {
    unique_names(s.proxies)
}

/// The proxy set with the named proxy's enabled flag set.
pub open spec fn set_enabled(ps: Seq<ProxyView>, name: Seq<char>, on: bool) -> Seq<ProxyView> {
    Seq::new(
        ps.len(),
        |i: int|
            if ps[i].name == name {
                ProxyView { enabled: on, ..ps[i] }
            } else {
                ps[i]
            },
    )
}

/// The toxic list without the first toxic carrying the given name.
pub open spec fn remove_first_toxic(ts: Seq<ToxicView>, toxic: Seq<char>) -> Seq<ToxicView>
    decreases ts.len(),
{
    if ts.len() == 0 {
        ts
    } else if ts[0].name == toxic {
        ts.drop_first()
    } else {
        seq![ts[0]] + remove_first_toxic(ts.drop_first(), toxic)
    }
}

/// The toxic list with a toxic created, or replaced when one of the same
/// name is already registered: the colliding toxic leaves, the new
/// descriptor arrives at the end of the list.
pub open spec fn put_toxic(ts: Seq<ToxicView>, t: ToxicView) -> Seq<ToxicView> {
    remove_first_toxic(ts, t.name).push(t)
}

/// The proxy set with the named proxy's toxic list rewritten.
pub open spec fn map_toxics(
    ps: Seq<ProxyView>,
    name: Seq<char>,
    f: spec_fn(Seq<ToxicView>) -> Seq<ToxicView>,
) -> Seq<ProxyView> {
    Seq::new(
        ps.len(),
        |i: int|
            if ps[i].name == name {
                ProxyView { toxics: f(ps[i].toxics), ..ps[i] }
            } else {
                ps[i]
            },
    )
}

/// The proxy set with one configuration created, or replaced by name.
pub open spec fn upsert(ps: Seq<ProxyView>, cfg: ProxyView) -> Seq<ProxyView> {
    if has_proxy(ps, cfg.name) {
        Seq::new(
            ps.len(),
            |i: int|
                if ps[i].name == cfg.name {
                    cfg
                } else {
                    ps[i]
                },
        )
    } else {
        ps.push(cfg)
    }
}

/// The proxy set after a replace-all: each configuration created or replaced
/// by name, in order.
pub open spec fn upsert_all(ps: Seq<ProxyView>, cfgs: Seq<ProxyView>) -> Seq<ProxyView>
    decreases cfgs.len(),
{
    if cfgs.len() == 0 {
        ps
    } else {
        upsert_all(upsert(ps, cfgs[0]), cfgs.drop_first())
    }
}

/// The proxy set without the named proxy.
pub open spec fn remove_named(ps: Seq<ProxyView>, name: Seq<char>) -> Seq<ProxyView> {
    if has_proxy(ps, name) {
        ps.remove(choose|i: int| 0 <= i < ps.len() && ps[i].name == name)
    } else {
        ps
    }
}

/// Every proxy re-enabled with every toxic cleared: the clean slate.
pub open spec fn reset_all(ps: Seq<ProxyView>) -> Seq<ProxyView> {
    Seq::new(ps.len(), |i: int| ProxyView { enabled: true, toxics: Seq::empty(), ..ps[i] })
}

/// How each command changes a conforming service's state. Reads change
/// nothing.
pub open spec fn apply_command(s: ServerView, c: CommandView) -> ServerView {
    match c {
        CommandView::Populate(cfgs) => ServerView {
            proxies: upsert_all(s.proxies, cfgs),
            ..s
        },
        CommandView::ResetState => ServerView { proxies: reset_all(s.proxies), ..s },
        CommandView::ListProxies => s,
        CommandView::FetchProxy(_) => s,
        CommandView::SetEnabled(name, on) => ServerView {
            proxies: set_enabled(s.proxies, name, on),
            ..s
        },
        CommandView::RemoveProxy(name) => ServerView {
            proxies: remove_named(s.proxies, name),
            ..s
        },
        CommandView::ListToxics(_) => s,
        CommandView::AddToxic(name, t) => ServerView {
            proxies: map_toxics(s.proxies, name, |ts: Seq<ToxicView>| put_toxic(ts, t)),
            ..s
        },
        CommandView::RemoveToxic(name, toxic) => ServerView {
            proxies: map_toxics(
                s.proxies,
                name,
                |ts: Seq<ToxicView>| remove_first_toxic(ts, toxic),
            ),
            ..s
        },
        CommandView::FetchVersion => s,
    }
}

/// What a conforming service answers to each command, from the state the
/// command arrives in. A command naming an unregistered proxy is answered
/// with the missing status.
pub open spec fn reply_to(s: ServerView, c: CommandView) -> ReplyView {
    match c {
        CommandView::Populate(cfgs) => (ReplyView::Answered {
            status: 201,
            payload: PayloadView::PopulatedProxies(Some(cfgs)),
        }),
        CommandView::ResetState => (ReplyView::Answered {
            status: 204,
            payload: PayloadView::Empty,
        }),
        CommandView::ListProxies => (ReplyView::Answered {
            status: 200,
            payload: PayloadView::ProxyEntries(
                Seq::new(s.proxies.len(), |i: int| (s.proxies[i].name, s.proxies[i])),
            ),
        }),
        CommandView::FetchProxy(name) => if has_proxy(s.proxies, name) {
            ReplyView::Answered {
                status: 200,
                payload: PayloadView::OneProxy(proxy_at(s.proxies, name)),
            }
        } else {
            ReplyView::Answered { status: 404, payload: PayloadView::Empty }
        },
        CommandView::SetEnabled(name, _) => if has_proxy(s.proxies, name) {
            ReplyView::Answered { status: 200, payload: PayloadView::Empty }
        } else {
            ReplyView::Answered { status: 404, payload: PayloadView::Empty }
        },
        CommandView::RemoveProxy(name) => if has_proxy(s.proxies, name) {
            ReplyView::Answered { status: 204, payload: PayloadView::Empty }
        } else {
            ReplyView::Answered { status: 404, payload: PayloadView::Empty }
        },
        CommandView::ListToxics(name) => if has_proxy(s.proxies, name) {
            ReplyView::Answered {
                status: 200,
                payload: PayloadView::ToxicEntries(proxy_at(s.proxies, name).toxics),
            }
        } else {
            ReplyView::Answered { status: 404, payload: PayloadView::Empty }
        },
        CommandView::AddToxic(name, _) => if has_proxy(s.proxies, name) {
            ReplyView::Answered { status: 200, payload: PayloadView::Empty }
        } else {
            ReplyView::Answered { status: 404, payload: PayloadView::Empty }
        },
        CommandView::RemoveToxic(name, _) => if has_proxy(s.proxies, name) {
            ReplyView::Answered { status: 204, payload: PayloadView::Empty }
        } else {
            ReplyView::Answered { status: 404, payload: PayloadView::Empty }
        },
        CommandView::FetchVersion => (ReplyView::Answered {
            status: 200,
            payload: PayloadView::Text(s.version),
        }),
    }
}

/// The state a conforming service reaches after a whole command script.
pub open spec fn run_script(s: ServerView, cs: Seq<CommandView>) -> ServerView
    decreases cs.len(),
{
    if cs.len() == 0 {
        s
    } else {
        run_script(apply_command(s, cs[0]), cs.drop_first())
    }
}

/// Drives a toxic clean-up session against a conforming service: the
/// outstanding command is answered from the current state, the state moves
/// on, and the session decides the next step, until the session finishes or
/// the fuel runs out. Returns the final service state, the finished session,
/// and its last step.
pub open spec fn drive_clear(
    s: ServerView,
    session: crate::session::ClearView,
    cmd: CommandView,
    fuel: nat,
) -> (ServerView, crate::session::ClearView, crate::session::ClearStepView)
    decreases fuel,
{
    if fuel == 0 {
        (s, session, crate::session::ClearStepView::Done(Err(ClientErrorView::Transport(Seq::empty()))))
    } else {
        let reply = reply_to(s, cmd);
        let s1 = apply_command(s, cmd);
        let stepped = crate::session::clear_next(session, reply);
        match stepped.1 {
            crate::session::ClearStepView::Send(c) => drive_clear(
                s1,
                stepped.0,
                c,
                (fuel - 1) as nat,
            ),
            crate::session::ClearStepView::Done(_) => (s1, stepped.0, stepped.1),
        }
    }
}

/// Drives a fetch-with-clean-baseline session against a conforming service,
/// in the same way as [`drive_clear`].
pub open spec fn drive_find(
    s: ServerView,
    session: crate::session::FindView,
    cmd: CommandView,
    fuel: nat,
) -> (ServerView, crate::session::FindView, crate::session::FindStepView)
    decreases fuel,
{
    if fuel == 0 {
        (s, session, crate::session::FindStepView::Done(Err(ClientErrorView::Transport(Seq::empty()))))
    } else {
        let reply = reply_to(s, cmd);
        let s1 = apply_command(s, cmd);
        let stepped = crate::session::find_next(session, reply);
        match stepped.1 {
            crate::session::FindStepView::Send(c) => drive_find(
                s1,
                stepped.0,
                c,
                (fuel - 1) as nat,
            ),
            crate::session::FindStepView::Done(_) => (s1, stepped.0, stepped.1),
        }
    }
}


/// With unique names, every index carrying a name holds the proxy the model
/// looks up under that name.
pub proof fn lemma_proxy_at_unique(ps: Seq<ProxyView>, name: Seq<char>, i: int)
    requires
        unique_names(ps),
        0 <= i < ps.len(),
        ps[i].name == name,
    ensures
        has_proxy(ps, name),
        proxy_at(ps, name) == ps[i],
{
    assert(has_proxy(ps, name));
    let j = choose|k: int| 0 <= k < ps.len() && ps[k].name == name;
    assert(0 <= j < ps.len() && ps[j].name == name);
    if j < i {
        assert(ps[j].name != ps[i].name);
        assert(false);
    } else if i < j {
        assert(ps[i].name != ps[j].name);
        assert(false);
    }
}

/// Creating or replacing one configuration keeps names unique and registers
/// exactly that configuration under its name.
pub proof fn lemma_upsert_same(ps: Seq<ProxyView>, cfg: ProxyView)
    requires
        unique_names(ps),
    ensures
        unique_names(upsert(ps, cfg)),
        has_proxy(upsert(ps, cfg), cfg.name),
        proxy_at(upsert(ps, cfg), cfg.name) == cfg,
{
    let ps1 = upsert(ps, cfg);
    if has_proxy(ps, cfg.name) {
        let w = choose|k: int| 0 <= k < ps.len() && ps[k].name == cfg.name;
        assert(0 <= w < ps.len() && ps[w].name == cfg.name);
        assert forall|i: int| 0 <= i < ps1.len() implies (#[trigger] ps1[i]).name
            == ps[i].name by {}
        assert(ps1[w] == cfg);
        lemma_proxy_at_unique(ps1, cfg.name, w);
    } else {
        assert(ps1 == ps.push(cfg));
        assert(ps1[ps.len() as int] == cfg);
        assert forall|i: int, j: int| 0 <= i < j < ps1.len() implies ps1[i].name
            != ps1[j].name by {
            if j < ps.len() {
                assert(ps1[i] == ps[i] && ps1[j] == ps[j]);
            } else {
                assert(ps1[j] == cfg);
                assert(ps1[i] == ps[i]);
                assert(!(ps[i].name == cfg.name));
            }
        }
        lemma_proxy_at_unique(ps1, cfg.name, ps.len() as int);
    }
}

/// Removing the first toxic of a name is removing the element at the first
/// index carrying that name.
pub proof fn lemma_remove_first_at(ts: Seq<ToxicView>, name: Seq<char>, i: int)
    requires
        0 <= i < ts.len(),
        ts[i].name == name,
        forall|j: int| 0 <= j < i ==> ts[j].name != name,
    ensures
        remove_first_toxic(ts, name) =~= ts.remove(i),
    decreases i,
{
    if i == 0 {
        assert(remove_first_toxic(ts, name) == ts.drop_first());
        assert(ts.drop_first() =~= ts.remove(0));
    } else {
        assert(ts[0].name != name);
        let rest = ts.drop_first();
        assert(rest[i - 1].name == name);
        assert forall|j: int| 0 <= j < i - 1 implies rest[j].name != name by {
            assert(rest[j] == ts[j + 1]);
        }
        lemma_remove_first_at(rest, name, i - 1);
        assert(remove_first_toxic(ts, name) == seq![ts[0]] + remove_first_toxic(rest, name));
        assert(seq![ts[0]] + rest.remove(i - 1) =~= ts.remove(i));
    }
}

/// A toxic list without the name is left as it stands.
pub proof fn lemma_remove_first_absent(ts: Seq<ToxicView>, name: Seq<char>)
    requires
        forall|j: int| 0 <= j < ts.len() ==> (#[trigger] ts[j]).name != name,
    ensures
        remove_first_toxic(ts, name) =~= ts,
    decreases ts.len(),
{
    if ts.len() == 0 {
    } else {
        assert(ts[0].name != name);
        let rest = ts.drop_first();
        assert forall|j: int| 0 <= j < rest.len() implies (#[trigger] rest[j]).name != name by {
            assert(rest[j] == ts[j + 1]);
        }
        lemma_remove_first_absent(rest, name);
        assert(seq![ts[0]] + remove_first_toxic(rest, name) =~= ts);
    }
}

/// A replace-all peels its configurations from the front; appending one more
/// is one more create-or-replace at the end.
pub proof fn lemma_upsert_all_snoc(ps: Seq<ProxyView>, cfgs: Seq<ProxyView>, cfg: ProxyView)
    ensures
        upsert_all(ps, cfgs.push(cfg)) == upsert(upsert_all(ps, cfgs), cfg),
    decreases cfgs.len(),
{
    let whole = cfgs.push(cfg);
    assert(whole.len() == cfgs.len() + 1);
    if cfgs.len() == 0 {
        assert(whole[0] == cfg);
        assert(whole.drop_first() =~= Seq::<ProxyView>::empty());
        assert(upsert_all(ps, whole) == upsert_all(upsert(ps, cfg), whole.drop_first()));
    } else {
        assert(whole[0] == cfgs[0]);
        assert(whole.drop_first() =~= cfgs.drop_first().push(cfg));
        lemma_upsert_all_snoc(upsert(ps, cfgs[0]), cfgs.drop_first(), cfg);
        assert(upsert_all(ps, whole) == upsert_all(upsert(ps, cfgs[0]), whole.drop_first()));
        assert(upsert_all(upsert(ps, cfgs[0]), whole.drop_first()) == upsert_all(
            upsert(ps, cfgs[0]),
            cfgs.drop_first().push(cfg),
        ));
    }
}

} // verus!
