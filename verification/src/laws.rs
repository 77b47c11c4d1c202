//! The library's stated guarantees, proved against the conformance model.
//!
//! Each proof function here is a law of the protocol: a statement about what
//! any conforming control service shows after the command scripts the client
//! emits. The session module's step functions emit exactly these scripts, so
//! the laws carry over to every completed session.

use vstd::prelude::*;

use crate::channel::{fetch_decision, populate_decision, toxics_decision, ClientErrorView, CommandView};
use crate::conformance::{
    apply_command, drive_clear, drive_find, has_proxy, lemma_proxy_at_unique, lemma_upsert_same,
    proxy_at, remove_first_toxic, reply_to, run_script, set_enabled, unique_names, upsert,
    upsert_all, wf_server, ServerView,
};
use crate::proxy::{ProxyHandleView, ProxyView};
use crate::session::{
    clear_next, clear_script, clear_started, clear_wf, cleared_handle, delete_script, find_next,
    find_started, ClearStateView, ClearStepView, ClearView, FindStateView, FindStepView, FindView,
};
use crate::toxic::ToxicView;

verus! {

/// Idempotence of enable and disable: repeating the same partial update
/// leaves the state the first update reached.
pub proof fn lemma_set_enabled_idempotent(s: ServerView, name: Seq<char>, on: bool)
    ensures
        apply_command(
            apply_command(s, CommandView::SetEnabled(name, on)),
            CommandView::SetEnabled(name, on),
        ) == apply_command(s, CommandView::SetEnabled(name, on)),
{
    let ps1 = set_enabled(s.proxies, name, on);
    let ps2 = set_enabled(ps1, name, on);
    assert forall|i: int| 0 <= i < ps2.len() implies ps2[i] == ps1[i] by {
        assert(ps1[i].name == s.proxies[i].name);
    }
    assert(ps2 =~~= ps1);
    assert(apply_command(
        apply_command(s, CommandView::SetEnabled(name, on)),
        CommandView::SetEnabled(name, on),
    ) =~~= apply_command(s, CommandView::SetEnabled(name, on)));
}

/// Enabling a proxy that is already enabled is a no-op on the service state.
pub proof fn lemma_enable_noop(s: ServerView, name: Seq<char>)
    requires
        wf_server(s),
        has_proxy(s.proxies, name),
        proxy_at(s.proxies, name).enabled,
    ensures
        apply_command(s, CommandView::SetEnabled(name, true)) == s,
{
    let ps1 = set_enabled(s.proxies, name, true);
    assert forall|i: int| 0 <= i < ps1.len() implies ps1[i] == s.proxies[i] by {
        if s.proxies[i].name == name {
            lemma_proxy_at_unique(s.proxies, name, i);
            assert(s.proxies[i].enabled);
        }
    }
    assert(ps1 =~~= s.proxies);
    assert(apply_command(s, CommandView::SetEnabled(name, true)) =~~= s);
}

/// Scoped-disable guarantee, one direction at a time: after the partial
/// update that sets the enabled flag, re-fetching the proxy shows exactly
/// that flag.
pub proof fn lemma_set_enabled_observed(s: ServerView, name: Seq<char>, on: bool)
    requires
        has_proxy(s.proxies, name),
    ensures
        ({
            let s1 = apply_command(s, CommandView::SetEnabled(name, on));
            &&& has_proxy(s1.proxies, name)
            &&& fetch_decision(name, reply_to(s1, CommandView::FetchProxy(name))) matches Ok(p)
                && p.name == name && p.enabled == on
        }),
{
    let ps1 = set_enabled(s.proxies, name, on);
    let w = choose|k: int| 0 <= k < s.proxies.len() && s.proxies[k].name == name;
    assert(0 <= w < s.proxies.len() && s.proxies[w].name == name);
    assert(ps1[w].name == name);
    assert(has_proxy(ps1, name));
    let c = choose|k: int| 0 <= k < ps1.len() && ps1[k].name == name;
    assert(0 <= c < ps1.len() && ps1[c].name == name);
    if s.proxies[c].name != name {
        assert(ps1[c] == s.proxies[c]);
        assert(false);
    }
    assert(ps1[c].enabled == on);
}

/// Running the delete script for a proxy's listed toxics leaves that proxy
/// with no toxics and touches no other proxy.
pub proof fn lemma_delete_script_clears(s: ServerView, name: Seq<char>, ts: Seq<ToxicView>)
    requires
        wf_server(s),
        has_proxy(s.proxies, name),
        proxy_at(s.proxies, name).toxics == ts,
    ensures
        ({
            let s2 = run_script(s, delete_script(name, ts));
            &&& s2.proxies.len() == s.proxies.len()
            &&& forall|i: int|
                0 <= i < s.proxies.len() ==> (#[trigger] s2.proxies[i]).name == s.proxies[i].name
            &&& forall|i: int|
                0 <= i < s.proxies.len() && s.proxies[i].name != name ==> #[trigger] s2.proxies[i]
                    == s.proxies[i]
            &&& wf_server(s2)
            &&& has_proxy(s2.proxies, name)
            &&& proxy_at(s2.proxies, name).toxics.len() == 0
            &&& s2.version == s.version
        }),
    decreases ts.len(),
{
    let script = delete_script(name, ts);
    if ts.len() == 0 {
        assert(script.len() == 0);
        assert(run_script(s, script) == s);
        assert forall|i: int|
            0 <= i < s.proxies.len() && s.proxies[i].name == name implies proxy_at(
            s.proxies,
            name,
        ) == s.proxies[i] by {
            lemma_proxy_at_unique(s.proxies, name, i);
        }
    } else {
        let cmd = CommandView::RemoveToxic(name, ts[0].name);
        let s1 = apply_command(s, cmd);
        assert(script[0] == cmd);
        assert(script.drop_first() =~= delete_script(name, ts.drop_first()));
        assert(run_script(s, script) == run_script(s1, delete_script(name, ts.drop_first())));

        let c = choose|k: int| 0 <= k < s.proxies.len() && s.proxies[k].name == name;
        assert(0 <= c < s.proxies.len() && s.proxies[c].name == name);
        assert(proxy_at(s.proxies, name) == s.proxies[c]);
        assert forall|i: int| 0 <= i < s1.proxies.len() implies (#[trigger] s1.proxies[i]).name
            == s.proxies[i].name by {}
        assert(wf_server(s1));
        assert(s1.proxies[c].name == name);
        assert(has_proxy(s1.proxies, name));
        lemma_proxy_at_unique(s1.proxies, name, c);
        assert(s1.proxies[c].toxics == remove_first_toxic(ts, ts[0].name));
        assert(remove_first_toxic(ts, ts[0].name) == ts.drop_first());
        assert(proxy_at(s1.proxies, name).toxics == ts.drop_first());

        lemma_delete_script_clears(s1, name, ts.drop_first());
        let s2 = run_script(s1, delete_script(name, ts.drop_first()));
        assert forall|i: int|
            0 <= i < s.proxies.len() && s.proxies[i].name != name implies #[trigger] s2.proxies[i]
            == s.proxies[i] by {
            assert(s1.proxies[i] == s.proxies[i]);
            assert(s1.proxies[i].name != name);
        }
    }
}

/// Cleanup guarantee: listing a proxy's toxics and then running the whole
/// clear script leaves its toxic list empty, however many toxics were
/// registered beforehand.
pub proof fn lemma_apply_then_clear(s: ServerView, name: Seq<char>)
    requires
        wf_server(s),
        has_proxy(s.proxies, name),
    ensures
        ({
            let ts = proxy_at(s.proxies, name).toxics;
            let s2 = run_script(s, clear_script(name, ts));
            &&& toxics_decision(name, reply_to(s, CommandView::ListToxics(name))) == Ok::<
                _,
                ClientErrorView,
            >(ts)
            &&& has_proxy(s2.proxies, name)
            &&& proxy_at(s2.proxies, name).toxics.len() == 0
            &&& toxics_decision(name, reply_to(s2, CommandView::ListToxics(name))) == Ok::<
                _,
                ClientErrorView,
            >(Seq::<ToxicView>::empty())
        }),
{
    let ts = proxy_at(s.proxies, name).toxics;
    let script = clear_script(name, ts);
    assert(script[0] == CommandView::ListToxics(name));
    assert(script.drop_first() =~= delete_script(name, ts));
    assert(apply_command(s, script[0]) == s);
    assert(run_script(s, script) == run_script(s, delete_script(name, ts)));
    lemma_delete_script_clears(s, name, ts);
    let s2 = run_script(s, delete_script(name, ts));
    assert(proxy_at(s2.proxies, name).toxics =~= Seq::<ToxicView>::empty());
}

/// Driving the removal phase of a clean-up session against a conforming
/// service runs to a successful finish and empties the proxy's toxic list.
proof fn lemma_drive_clear_removals(
    s: ServerView,
    name: Seq<char>,
    queue: Seq<ToxicView>,
    sent: int,
    log: Seq<CommandView>,
    fuel: nat,
)
    requires
        wf_server(s),
        has_proxy(s.proxies, name),
        1 <= sent <= queue.len(),
        proxy_at(s.proxies, name).toxics == queue.skip(sent - 1),
        fuel >= queue.len() - sent + 1,
        clear_wf(
            ClearView {
                name,
                state: ClearStateView::AwaitRemoval { queue, sent },
                log,
            },
        ),
    ensures
        ({
            let session = ClearView {
                name,
                state: ClearStateView::AwaitRemoval { queue, sent },
                log,
            };
            let cmd = CommandView::RemoveToxic(name, queue[sent - 1].name);
            let r = drive_clear(s, session, cmd, fuel);
            &&& r.2 == ClearStepView::Done(Ok::<(), ClientErrorView>(()))
            &&& r.1.log == clear_script(name, queue)
            &&& has_proxy(r.0.proxies, name)
            &&& proxy_at(r.0.proxies, name).toxics.len() == 0
        }),
    decreases queue.len() - sent,
{
    let session = ClearView {
        name,
        state: ClearStateView::AwaitRemoval { queue, sent },
        log,
    };
    let cmd = CommandView::RemoveToxic(name, queue[sent - 1].name);
    let reply = reply_to(s, cmd);
    let s1 = apply_command(s, cmd);

    let c = choose|k: int| 0 <= k < s.proxies.len() && s.proxies[k].name == name;
    assert(0 <= c < s.proxies.len() && s.proxies[c].name == name);
    assert(proxy_at(s.proxies, name) == s.proxies[c]);
    assert forall|i: int| 0 <= i < s1.proxies.len() implies (#[trigger] s1.proxies[i]).name
        == s.proxies[i].name by {}
    assert(wf_server(s1));
    assert(s1.proxies[c].name == name);
    assert(has_proxy(s1.proxies, name));
    lemma_proxy_at_unique(s1.proxies, name, c);
    assert(s1.proxies[c].toxics == remove_first_toxic(queue.skip(sent - 1), queue[sent - 1].name));
    assert(queue.skip(sent - 1)[0] == queue[sent - 1]);
    assert(remove_first_toxic(queue.skip(sent - 1), queue[sent - 1].name) == queue.skip(
        sent - 1,
    ).drop_first());
    assert(queue.skip(sent - 1).drop_first() =~= queue.skip(sent));
    assert(proxy_at(s1.proxies, name).toxics == queue.skip(sent));

    let stepped = clear_next(session, reply);
    if sent < queue.len() {
        let log2 = log.push(CommandView::RemoveToxic(name, queue[sent].name));
        assert(log2 =~= seq![CommandView::ListToxics(name)] + delete_script(
            name,
            queue.take(sent + 1),
        ));
        assert(clear_wf(
            ClearView {
                name,
                state: ClearStateView::AwaitRemoval { queue, sent: sent + 1 },
                log: log2,
            },
        ));
        lemma_drive_clear_removals(s1, name, queue, sent + 1, log2, (fuel - 1) as nat);
    } else {
        assert(queue.take(sent) =~= queue);
        assert(log =~= clear_script(name, queue));
        assert(queue.skip(sent).len() == 0);
    }
}

/// Cleanup guarantee, end to end: the clean-up session itself, driven step
/// by step against any conforming service that knows the proxy, finishes
/// successfully, has emitted exactly the clear script, and leaves the proxy
/// with no registered toxics.
pub proof fn lemma_clear_session_conforming(s: ServerView, name: Seq<char>, fuel: nat)
    requires
        wf_server(s),
        has_proxy(s.proxies, name),
        fuel > proxy_at(s.proxies, name).toxics.len(),
    ensures
        ({
            let r = drive_clear(s, clear_started(name), CommandView::ListToxics(name), fuel);
            &&& r.2 == ClearStepView::Done(Ok::<(), ClientErrorView>(()))
            &&& r.1.log == clear_script(name, proxy_at(s.proxies, name).toxics)
            &&& has_proxy(r.0.proxies, name)
            &&& proxy_at(r.0.proxies, name).toxics.len() == 0
        }),
{
    let ts = proxy_at(s.proxies, name).toxics;
    let session = clear_started(name);
    let cmd = CommandView::ListToxics(name);
    let reply = reply_to(s, cmd);
    assert(apply_command(s, cmd) == s);
    let stepped = clear_next(session, reply);
    if ts.len() == 0 {
        assert(stepped.1 == ClearStepView::Done(Ok::<(), ClientErrorView>(())));
        assert(session.log =~= clear_script(name, ts));
    } else {
        let log2 = session.log.push(CommandView::RemoveToxic(name, ts[0].name));
        assert(stepped.0 == (ClearView {
            name,
            state: ClearStateView::AwaitRemoval { queue: ts, sent: 1 },
            log: log2,
        }));
        assert(log2 =~= seq![CommandView::ListToxics(name)] + delete_script(name, ts.take(1)));
        assert(clear_wf(stepped.0));
        assert(ts.skip(0) =~= ts);
        lemma_drive_clear_removals(s, name, ts, 1, log2, (fuel - 1) as nat);
    }
}

/// Driving the clearing phase of a fetch session against a conforming
/// service finishes with the cleared handle and an empty server-side toxic
/// list.
proof fn lemma_drive_find_removals(
    s: ServerView,
    name: Seq<char>,
    pack: ProxyView,
    queue: Seq<ToxicView>,
    sent: int,
    log: Seq<CommandView>,
    fuel: nat,
)
    requires
        wf_server(s),
        has_proxy(s.proxies, name),
        1 <= sent <= queue.len(),
        proxy_at(s.proxies, name).toxics == queue.skip(sent - 1),
        fuel >= queue.len() - sent + 1,
        clear_wf(
            ClearView {
                name,
                state: ClearStateView::AwaitRemoval { queue, sent },
                log,
            },
        ),
    ensures
        ({
            let inner = ClearView {
                name,
                state: ClearStateView::AwaitRemoval { queue, sent },
                log,
            };
            let session = FindView {
                name,
                state: FindStateView::Clearing { pack, clear: inner },
            };
            let cmd = CommandView::RemoveToxic(name, queue[sent - 1].name);
            let r = drive_find(s, session, cmd, fuel);
            &&& r.2 == FindStepView::Done(Ok::<_, ClientErrorView>(cleared_handle(pack)))
            &&& has_proxy(r.0.proxies, name)
            &&& proxy_at(r.0.proxies, name).toxics.len() == 0
        }),
    decreases queue.len() - sent,
{
    let inner = ClearView {
        name,
        state: ClearStateView::AwaitRemoval { queue, sent },
        log,
    };
    let session = FindView { name, state: FindStateView::Clearing { pack, clear: inner } };
    let cmd = CommandView::RemoveToxic(name, queue[sent - 1].name);
    let reply = reply_to(s, cmd);
    let s1 = apply_command(s, cmd);

    let c = choose|k: int| 0 <= k < s.proxies.len() && s.proxies[k].name == name;
    assert(0 <= c < s.proxies.len() && s.proxies[c].name == name);
    assert(proxy_at(s.proxies, name) == s.proxies[c]);
    assert forall|i: int| 0 <= i < s1.proxies.len() implies (#[trigger] s1.proxies[i]).name
        == s.proxies[i].name by {}
    assert(wf_server(s1));
    assert(s1.proxies[c].name == name);
    assert(has_proxy(s1.proxies, name));
    lemma_proxy_at_unique(s1.proxies, name, c);
    assert(s1.proxies[c].toxics == remove_first_toxic(queue.skip(sent - 1), queue[sent - 1].name));
    assert(queue.skip(sent - 1)[0] == queue[sent - 1]);
    assert(remove_first_toxic(queue.skip(sent - 1), queue[sent - 1].name) == queue.skip(
        sent - 1,
    ).drop_first());
    assert(queue.skip(sent - 1).drop_first() =~= queue.skip(sent));
    assert(proxy_at(s1.proxies, name).toxics == queue.skip(sent));

    if sent < queue.len() {
        let log2 = log.push(CommandView::RemoveToxic(name, queue[sent].name));
        assert(log2 =~= seq![CommandView::ListToxics(name)] + delete_script(
            name,
            queue.take(sent + 1),
        ));
        assert(clear_wf(
            ClearView {
                name,
                state: ClearStateView::AwaitRemoval { queue, sent: sent + 1 },
                log: log2,
            },
        ));
        lemma_drive_find_removals(s1, name, pack, queue, sent + 1, log2, (fuel - 1) as nat);
    } else {
        assert(queue.skip(sent).len() == 0);
    }
}

/// Baseline guarantee, end to end: the fetch session, driven step by step
/// against any conforming service that knows the proxy, hands back exactly
/// the fetched configuration with its toxics cleared — cleared on the
/// service and empty in the snapshot.
pub proof fn lemma_find_session_conforming(s: ServerView, name: Seq<char>, fuel: nat)
    requires
        wf_server(s),
        has_proxy(s.proxies, name),
        fuel >= proxy_at(s.proxies, name).toxics.len() + 2,
    ensures
        ({
            let r = drive_find(s, find_started(name), CommandView::FetchProxy(name), fuel);
            &&& r.2 == FindStepView::Done(
                Ok::<_, ClientErrorView>(cleared_handle(proxy_at(s.proxies, name))),
            )
            &&& has_proxy(r.0.proxies, name)
            &&& proxy_at(r.0.proxies, name).toxics.len() == 0
        }),
{
    let pack = proxy_at(s.proxies, name);
    let ts = pack.toxics;
    let fetch_cmd = CommandView::FetchProxy(name);
    let list_cmd = CommandView::ListToxics(name);
    assert(apply_command(s, fetch_cmd) == s);
    assert(apply_command(s, list_cmd) == s);

    let session1 = FindView {
        name,
        state: FindStateView::Clearing { pack, clear: clear_started(name) },
    };
    assert(find_next(find_started(name), reply_to(s, fetch_cmd))
        == (session1, FindStepView::Send(list_cmd)));
    assert(drive_find(s, find_started(name), fetch_cmd, fuel) == drive_find(
        s,
        session1,
        list_cmd,
        (fuel - 1) as nat,
    ));

    if ts.len() == 0 {
        assert(clear_next(clear_started(name), reply_to(s, list_cmd)).1
            == ClearStepView::Done(Ok::<(), ClientErrorView>(())));
        assert(find_next(session1, reply_to(s, list_cmd)).1 == FindStepView::Done(
            Ok::<_, ClientErrorView>(cleared_handle(pack)),
        ));
        assert(drive_find(s, session1, list_cmd, (fuel - 1) as nat).2 == FindStepView::Done(
            Ok::<_, ClientErrorView>(cleared_handle(pack)),
        ));
        assert(drive_find(s, session1, list_cmd, (fuel - 1) as nat).0 == s);
    } else {
        let rm_cmd = CommandView::RemoveToxic(name, ts[0].name);
        let log2 = clear_started(name).log.push(rm_cmd);
        let inner = ClearView {
            name,
            state: ClearStateView::AwaitRemoval { queue: ts, sent: 1 },
            log: log2,
        };
        let session2 = FindView { name, state: FindStateView::Clearing { pack, clear: inner } };
        assert(log2 =~= seq![CommandView::ListToxics(name)] + delete_script(name, ts.take(1)));
        assert(clear_wf(inner));
        assert(clear_next(clear_started(name), reply_to(s, list_cmd))
            == (inner, ClearStepView::Send(rm_cmd)));
        assert(find_next(session1, reply_to(s, list_cmd))
            == (session2, FindStepView::Send(rm_cmd)));
        assert(drive_find(s, session1, list_cmd, (fuel - 1) as nat) == drive_find(
            s,
            session2,
            rm_cmd,
            (fuel - 2) as nat,
        ));
        assert(ts.skip(0) =~= ts);
        lemma_drive_find_removals(s, name, pack, ts, 1, log2, (fuel - 2) as nat);
    }
}

/// Missing-resource guarantee, end to end: the fetch session against a
/// service that does not know the name ends at once with the
/// missing-resource failure, changing nothing.
pub proof fn lemma_find_session_missing(s: ServerView, name: Seq<char>, fuel: nat)
    requires
        !has_proxy(s.proxies, name),
        fuel >= 1,
    ensures
        ({
            let r = drive_find(s, find_started(name), CommandView::FetchProxy(name), fuel);
            &&& r.2 == FindStepView::Done(
                Err::<ProxyHandleView, _>(ClientErrorView::MissingResource(name)),
            )
            &&& r.0 == s
        }),
{
    assert(apply_command(s, CommandView::FetchProxy(name)) == s);
}

/// Creating or replacing one configuration leaves every other name's entry
/// untouched.
proof fn lemma_upsert_other(ps: Seq<ProxyView>, cfg: ProxyView, name: Seq<char>)
    requires
        unique_names(ps),
        name != cfg.name,
    ensures
        has_proxy(upsert(ps, cfg), name) == has_proxy(ps, name),
        has_proxy(ps, name) ==> proxy_at(upsert(ps, cfg), name) == proxy_at(ps, name),
{
    let ps1 = upsert(ps, cfg);
    lemma_upsert_same(ps, cfg);
    if has_proxy(ps, name) {
        let w = choose|k: int| 0 <= k < ps.len() && ps[k].name == name;
        assert(0 <= w < ps.len() && ps[w].name == name);
        lemma_proxy_at_unique(ps, name, w);
        assert(ps1[w] == ps[w]);
        lemma_proxy_at_unique(ps1, name, w);
    } else {
        if has_proxy(ps1, name) {
            let v = choose|k: int| 0 <= k < ps1.len() && ps1[k].name == name;
            assert(0 <= v < ps1.len() && ps1[v].name == name);
            if v < ps.len() {
                if has_proxy(ps, cfg.name) {
                    assert(ps1[v] == ps[v] || ps1[v] == cfg);
                } else {
                    assert(ps1[v] == ps[v]);
                }
                assert(false);
            } else {
                assert(ps1[v] == cfg);
                assert(false);
            }
        }
    }
}

/// A replace-all whose configurations avoid a name leaves that name's entry
/// untouched.
proof fn lemma_upsert_all_other(ps: Seq<ProxyView>, cfgs: Seq<ProxyView>, name: Seq<char>)
    requires
        unique_names(ps),
        forall|j: int| 0 <= j < cfgs.len() ==> (#[trigger] cfgs[j]).name != name,
    ensures
        unique_names(upsert_all(ps, cfgs)),
        has_proxy(upsert_all(ps, cfgs), name) == has_proxy(ps, name),
        has_proxy(ps, name) ==> proxy_at(upsert_all(ps, cfgs), name) == proxy_at(ps, name),
    decreases cfgs.len(),
{
    if cfgs.len() == 0 {
    } else {
        lemma_upsert_same(ps, cfgs[0]);
        lemma_upsert_other(ps, cfgs[0], name);
        assert(forall|j: int|
            0 <= j < cfgs.drop_first().len() ==> (#[trigger] cfgs.drop_first()[j]).name != name);
        lemma_upsert_all_other(upsert(ps, cfgs[0]), cfgs.drop_first(), name);
    }
}

/// A replace-all with distinct names registers each configuration under its
/// name.
proof fn lemma_upsert_all_at(ps: Seq<ProxyView>, cfgs: Seq<ProxyView>, i: int)
    requires
        unique_names(ps),
        forall|j: int, k: int| 0 <= j < k < cfgs.len() ==> cfgs[j].name != cfgs[k].name,
        0 <= i < cfgs.len(),
    ensures
        has_proxy(upsert_all(ps, cfgs), cfgs[i].name),
        proxy_at(upsert_all(ps, cfgs), cfgs[i].name) == cfgs[i],
    decreases cfgs.len(),
{
    lemma_upsert_same(ps, cfgs[0]);
    if i == 0 {
        assert(forall|j: int|
            0 <= j < cfgs.drop_first().len() ==> (#[trigger] cfgs.drop_first()[j]).name
                != cfgs[0].name);
        lemma_upsert_all_other(upsert(ps, cfgs[0]), cfgs.drop_first(), cfgs[0].name);
    } else {
        lemma_upsert_all_at(upsert(ps, cfgs[0]), cfgs.drop_first(), i - 1);
        assert(cfgs.drop_first()[i - 1] == cfgs[i]);
    }
}

/// Round-trip guarantee: after a replace-all with distinct names, fetching
/// any submitted name yields its submitted listen and upstream addresses.
pub proof fn lemma_populate_round_trip(s: ServerView, cfgs: Seq<ProxyView>, i: int)
    requires
        wf_server(s),
        forall|j: int, k: int| 0 <= j < k < cfgs.len() ==> cfgs[j].name != cfgs[k].name,
        0 <= i < cfgs.len(),
    ensures
        ({
            let s1 = apply_command(s, CommandView::Populate(cfgs));
            &&& populate_decision(reply_to(s, CommandView::Populate(cfgs))) == Ok::<
                _,
                ClientErrorView,
            >(cfgs)
            &&& has_proxy(s1.proxies, cfgs[i].name)
            &&& fetch_decision(cfgs[i].name, reply_to(s1, CommandView::FetchProxy(cfgs[i].name)))
                matches Ok(p) && p.name == cfgs[i].name && p.listen == cfgs[i].listen
                && p.upstream == cfgs[i].upstream
        }),
{
    lemma_upsert_all_at(s.proxies, cfgs, i);
}

/// Baseline guarantee: the fetch-with-clean-baseline script (fetch, list,
/// delete each listed toxic) leaves the fetched proxy with no toxics, so a
/// fetched handle never starts with pre-existing toxics.
pub proof fn lemma_find_baseline(s: ServerView, name: Seq<char>)
    requires
        wf_server(s),
        has_proxy(s.proxies, name),
    ensures
        ({
            let ts = proxy_at(s.proxies, name).toxics;
            let script = seq![CommandView::FetchProxy(name)] + clear_script(name, ts);
            let s2 = run_script(s, script);
            &&& fetch_decision(name, reply_to(s, CommandView::FetchProxy(name))) == Ok::<
                _,
                ClientErrorView,
            >(proxy_at(s.proxies, name))
            &&& has_proxy(s2.proxies, name)
            &&& proxy_at(s2.proxies, name).toxics.len() == 0
        }),
{
    let ts = proxy_at(s.proxies, name).toxics;
    let script = seq![CommandView::FetchProxy(name)] + clear_script(name, ts);
    assert(script[0] == CommandView::FetchProxy(name));
    assert(script.drop_first() =~= clear_script(name, ts));
    assert(apply_command(s, script[0]) == s);
    assert(run_script(s, script) == run_script(s, clear_script(name, ts)));
    lemma_apply_then_clear(s, name);
}

/// Clean-slate guarantee: after a reset, every proxy is enabled and carries
/// no toxics, whatever state the service was in.
pub proof fn lemma_reset_clean_slate(s: ServerView, i: int)
    requires
        0 <= i < s.proxies.len(),
    ensures
        ({
            let s1 = apply_command(s, CommandView::ResetState);
            &&& s1.proxies.len() == s.proxies.len()
            &&& s1.proxies[i].name == s.proxies[i].name
            &&& s1.proxies[i].enabled
            &&& s1.proxies[i].toxics.len() == 0
        }),
{
}

/// Missing-resource guarantee: fetching a proxy the service does not know
/// fails as a missing resource, never as a transport failure.
pub proof fn lemma_fetch_missing(s: ServerView, name: Seq<char>)
    requires
        !has_proxy(s.proxies, name),
    ensures
        fetch_decision(name, reply_to(s, CommandView::FetchProxy(name))) == Err::<
            ProxyView,
            ClientErrorView,
        >(ClientErrorView::MissingResource(name)),
{
}

} // verus!
