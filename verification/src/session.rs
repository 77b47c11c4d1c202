//! Multi-step operations as explicit state machines.
//!
//! Each session owns the decisions of one protocol: which command to send
//! first, what each reply means, which command follows, and what the outcome
//! is. A driver outside the verified crate performs each emitted command on
//! the transport and hands the reply back to `advance`; when a session asks
//! for the caller's test body to run, the driver runs it and then calls
//! `body_done`. Every session has a mathematical view and a total spec-level
//! step function; `advance` is pinned to that function, so the command script
//! of a whole session is determined by the replies alone, and the proofs in
//! the conformance module apply to it.

use vstd::prelude::*;

use crate::channel::{
    ack_decision, decode_ack, decode_proxy, decode_toxic_list, fetch_decision, result_view,
    toxics_decision, ClientError, ClientErrorView, Command, CommandView, Reply, ReplyView,
};
use crate::proxy::{Proxy, ProxyHandleView, ProxyPack, ProxyView};
use crate::toxic::{ToxicPack, ToxicView};

verus! {

/// The delete commands that clear the toxics `ts` off the proxy `name`, in
/// listing order.
pub open spec fn delete_script(name: Seq<char>, ts: Seq<ToxicView>) -> Seq<CommandView> {
    Seq::new(ts.len(), |i: int| CommandView::RemoveToxic(name, ts[i].name))
}

/// The whole script of a toxic clean-up: list, then delete each listed toxic.
pub open spec fn clear_script(name: Seq<char>, ts: Seq<ToxicView>) -> Seq<CommandView> {
    seq![CommandView::ListToxics(name)] + delete_script(name, ts)
}

// ---------------------------------------------------------------------------
// Clearing every toxic off one proxy.
// ---------------------------------------------------------------------------

/// What a clean-up session hands the driver next.
pub enum ClearStep {
    /// Perform this command and hand the reply to `advance`.
    Send(Command),
    /// The session is over, with this outcome.
    Done(Result<(), ClientError>),
}

/// Mathematical form of [`ClearStep`].
pub enum ClearStepView {
    Send(CommandView),
    Done(Result<(), ClientErrorView>),
}

impl View for ClearStep {
    type V = ClearStepView;

    open spec fn view(&self) -> ClearStepView {
        match self {
            ClearStep::Send(c) => ClearStepView::Send(c@),
            ClearStep::Done(res) => ClearStepView::Done(result_view(*res)),
        }
    }
}

/// Where a toxic clean-up stands.
pub enum ClearState {
    /// The listing command is out; its reply is awaited.
    AwaitList,
    /// Deletes are being issued: `sent` of the listed `queue` are out, and
    /// the reply to the latest is awaited.
    AwaitRemoval { queue: Vec<ToxicPack>, sent: usize },
    /// The session is over.
    Finished,
}

/// Mathematical form of [`ClearState`].
pub enum ClearStateView {
    AwaitList,
    AwaitRemoval { queue: Seq<ToxicView>, sent: int },
    Finished,
}

/// Mathematical form of a clean-up session.
#[verifier::ext_equal]
pub struct ClearView {
    pub name: Seq<char>,
    pub state: ClearStateView,
    pub log: Seq<CommandView>,
}

/// Deletes every toxic currently registered on one proxy: enumerate, then
/// issue one delete per toxic in listing order. A failed listing aborts; a
/// failed delete aborts at once, leaving the remaining toxics registered.
pub struct ClearToxics {
    pub name: String,
    pub state: ClearState,
    /// The commands the session has emitted, in order.
    pub log: Ghost<Seq<CommandView>>,
}

impl View for ClearToxics {
    type V = ClearView;

    open spec fn view(&self) -> ClearView {
        ClearView {
            name: self.name@,
            state: match self.state {
                ClearState::AwaitList => ClearStateView::AwaitList,
                ClearState::AwaitRemoval { queue, sent } => (ClearStateView::AwaitRemoval {
                    queue: queue.deep_view(),
                    sent: sent as int,
                }),
                ClearState::Finished => ClearStateView::Finished,
            },
            log: self.log@,
        }
    }
}

/// The view a clean-up session starts from.
pub open spec fn clear_started(name: Seq<char>) -> ClearView {
    ClearView {
        name,
        state: ClearStateView::AwaitList,
        log: seq![CommandView::ListToxics(name)],
    }
}

/// The session's internal consistency: the log always holds the listing
/// command followed by the deletes issued so far.
pub open spec fn clear_wf(s: ClearView) -> bool {
    match s.state {
        ClearStateView::AwaitList => s.log == seq![CommandView::ListToxics(s.name)],
        ClearStateView::AwaitRemoval { queue, sent } => {
            &&& 1 <= sent <= queue.len()
            &&& s.log == seq![CommandView::ListToxics(s.name)] + delete_script(
                s.name,
                queue.take(sent),
            )
        },
        ClearStateView::Finished => true,
    }
}

/// How one reply moves a clean-up forward. Total: in a finished session the
/// reply is ignored and the session stays finished.
pub open spec fn clear_next(pre: ClearView, reply: ReplyView) -> (ClearView, ClearStepView) {
    match pre.state {
        ClearStateView::AwaitList => match toxics_decision(pre.name, reply) {
            Err(e) => (
                ClearView { state: ClearStateView::Finished, ..pre },
                ClearStepView::Done(Err(e)),
            ),
            Ok(ts) => if ts.len() == 0 {
                (ClearView { state: ClearStateView::Finished, ..pre }, ClearStepView::Done(Ok(())))
            } else {
                let cmd = CommandView::RemoveToxic(pre.name, ts[0].name);
                (
                    ClearView {
                        state: ClearStateView::AwaitRemoval { queue: ts, sent: 1 },
                        log: pre.log.push(cmd),
                        ..pre
                    },
                    ClearStepView::Send(cmd),
                )
            },
        },
        ClearStateView::AwaitRemoval { queue, sent } => match ack_decision(reply) {
            Err(e) => (
                ClearView { state: ClearStateView::Finished, ..pre },
                ClearStepView::Done(Err(e)),
            ),
            Ok(u) => if sent < queue.len() {
                let cmd = CommandView::RemoveToxic(pre.name, queue[sent].name);
                (
                    ClearView {
                        state: ClearStateView::AwaitRemoval { queue, sent: sent + 1 },
                        log: pre.log.push(cmd),
                        ..pre
                    },
                    ClearStepView::Send(cmd),
                )
            } else {
                (ClearView { state: ClearStateView::Finished, ..pre }, ClearStepView::Done(Ok(())))
            },
        },
        ClearStateView::Finished => (pre, ClearStepView::Done(Ok(()))),
    }
}

impl ClearToxics {
    /// Starts a clean-up of the proxy called `name`; the returned command is
    /// the toxic listing to perform first.
    pub fn begin(name: String) -> (r: (ClearToxics, Command))
        ensures
            r.0@ == clear_started(name@),
            clear_wf(r.0@),
            r.1@ == CommandView::ListToxics(name@),
    {
        let cmd = Command::ListToxics(name.clone());
        let ghost log0 = seq![cmd@];
        let s = ClearToxics { name, state: ClearState::AwaitList, log: Ghost(log0) };
        proof {
            assert(s@ =~~= clear_started(s.name@));
        }
        (s, cmd)
    }

    /// Feeds the reply to the last emitted command into the session.
    pub fn advance(self, reply: Reply) -> (r: (ClearToxics, ClearStep))
        requires
            clear_wf(self@),
            !(self@.state is Finished),
        ensures
            clear_wf(r.0@),
            r.0@ == clear_next(self@, reply@).0,
            r.1@ == clear_next(self@, reply@).1,
    {
        let ghost pre = self@;
        let ClearToxics { name, state, log } = self;
        match state {
            ClearState::AwaitList => match decode_toxic_list(&name, reply) {
                Err(e) => {
                    let s = ClearToxics { name, state: ClearState::Finished, log };
                    proof {
                        assert(s@ =~~= clear_next(pre, reply@).0);
                    }
                    (s, ClearStep::Done(Err(e)))
                },
                Ok(queue) => {
                    if queue.len() == 0 {
                        let s = ClearToxics { name, state: ClearState::Finished, log };
                        proof {
                            assert(s@ =~~= clear_next(pre, reply@).0);
                        }
                        (s, ClearStep::Done(Ok(())))
                    } else {
                        let toxic_name = queue[0].name.clone();
                        let cmd = Command::RemoveToxic(name.clone(), toxic_name);
                        let ghost log2 = log@.push(cmd@);
                        let s = ClearToxics {
                            name,
                            state: ClearState::AwaitRemoval { queue, sent: 1 },
                            log: Ghost(log2),
                        };
                        proof {
                            assert(s@ =~~= clear_next(pre, reply@).0);
                            assert(s@.log =~= seq![CommandView::ListToxics(s@.name)]
                                + delete_script(
                                s@.name,
                                (s@.state->AwaitRemoval_queue).take(1),
                            ));
                        }
                        (s, ClearStep::Send(cmd))
                    }
                },
            },
            ClearState::AwaitRemoval { queue, sent } => match decode_ack(reply) {
                Err(e) => {
                    let s = ClearToxics { name, state: ClearState::Finished, log };
                    proof {
                        assert(s@ =~~= clear_next(pre, reply@).0);
                    }
                    (s, ClearStep::Done(Err(e)))
                },
                Ok(_) => {
                    if sent < queue.len() {
                        let toxic_name = queue[sent].name.clone();
                        let cmd = Command::RemoveToxic(name.clone(), toxic_name);
                        let ghost log2 = log@.push(cmd@);
                        let s = ClearToxics {
                            name,
                            state: ClearState::AwaitRemoval { queue, sent: sent + 1 },
                            log: Ghost(log2),
                        };
                        proof {
                            assert(s@ =~~= clear_next(pre, reply@).0);
                            assert(s@.log =~= seq![CommandView::ListToxics(s@.name)]
                                + delete_script(
                                s@.name,
                                (s@.state->AwaitRemoval_queue).take(sent as int + 1),
                            ));
                        }
                        (s, ClearStep::Send(cmd))
                    } else {
                        let s = ClearToxics { name, state: ClearState::Finished, log };
                        proof {
                            assert(s@ =~~= clear_next(pre, reply@).0);
                        }
                        (s, ClearStep::Done(Ok(())))
                    }
                },
            },
            ClearState::Finished => {
                // Not reachable: excluded by the precondition.
                let s = ClearToxics { name, state: ClearState::Finished, log };
                (s, ClearStep::Done(Ok(())))
            },
        }
    }
}

// ---------------------------------------------------------------------------
// Running a test body while the proxy is disabled.
// ---------------------------------------------------------------------------

/// What a scoped run hands the driver next.
pub enum ScopeStep {
    /// Perform this command and hand the reply to `advance`.
    Send(Command),
    /// Run the caller's body now, then call `body_done`.
    RunBody,
    /// The session is over, with this outcome.
    Done(Result<(), ClientError>),
}

/// Where a scoped disable stands.
pub enum DownState {
    /// The disable command is out; its reply is awaited.
    AwaitDisable,
    /// The proxy is disabled; the caller's body is running.
    Body,
    /// The enable command is out; its reply is awaited.
    AwaitEnable,
    /// The session is over.
    Finished,
}

/// Runs a test body as if the proxy were down: disable, body, enable. The
/// enable is issued only once the disable was acknowledged, and always once
/// the body has run after a successful disable.
pub struct DownScope {
    pub name: String,
    pub state: DownState,
}

impl DownScope {
    /// Starts a scoped disable of the proxy called `name`; the returned
    /// command is the disabling update to perform first.
    pub fn begin(name: String) -> (r: (DownScope, Command))
        ensures
            r.0.name@ == name@,
            r.0.state is AwaitDisable,
            r.1@ == CommandView::SetEnabled(name@, false),
    {
        let cmd = Command::SetEnabled(name.clone(), false);
        (DownScope { name, state: DownState::AwaitDisable }, cmd)
    }

    /// Feeds the reply to the last emitted command into the session.
    pub fn advance(self, reply: Reply) -> (r: (DownScope, ScopeStep))
        requires
            self.state is AwaitDisable || self.state is AwaitEnable,
        ensures
            r.0.name@ == self.name@,
            self.state is AwaitDisable ==> match ack_decision(reply@) {
                Err(e) => {
                    &&& r.0.state is Finished
                    &&& r.1 matches ScopeStep::Done(res) && res matches Err(err) && err@ == e
                },
                Ok(_) => r.0.state is Body && r.1 is RunBody,
            },
            self.state is AwaitEnable ==> match ack_decision(reply@) {
                Err(e) => {
                    &&& r.0.state is Finished
                    &&& r.1 matches ScopeStep::Done(res) && res matches Err(err) && err@ == e
                },
                Ok(_) => {
                    &&& r.0.state is Finished
                    &&& r.1 matches ScopeStep::Done(res) && res is Ok
                },
            },
    {
        let DownScope { name, state } = self;
        match decode_ack(reply) {
            Err(e) => (
                DownScope { name, state: DownState::Finished },
                ScopeStep::Done(Err(e)),
            ),
            Ok(_) => match state {
                DownState::AwaitDisable => (
                    DownScope { name, state: DownState::Body },
                    ScopeStep::RunBody,
                ),
                _ => (
                    DownScope { name, state: DownState::Finished },
                    ScopeStep::Done(Ok(())),
                ),
            },
        }
    }

    /// The caller's body has run; the returned command is the enabling update
    /// that restores the proxy.
    pub fn body_done(self) -> (r: (DownScope, Command))
        requires
            self.state is Body,
        ensures
            r.0.name@ == self.name@,
            r.0.state is AwaitEnable,
            r.1@ == CommandView::SetEnabled(self.name@, true),
    {
        let DownScope { name, state: _ } = self;
        let cmd = Command::SetEnabled(name.clone(), true);
        (DownScope { name, state: DownState::AwaitEnable }, cmd)
    }
}

// ---------------------------------------------------------------------------
// Submitting the declared toxics, running a test body, clearing every toxic.
// ---------------------------------------------------------------------------

/// Where an apply scope stands.
pub enum ApplyState {
    /// A toxic creation is out; its reply is awaited.
    AwaitCreate,
    /// Every declared toxic is submitted; the caller's body is running.
    Body,
    /// The session is over (a creation failed and aborted the chain).
    Finished,
}

/// Runs a test body under the toxics declared on a handle, then clears every
/// toxic off the proxy. The declared toxics are submitted first, in
/// declaration order; a failed submission aborts the whole run. After the
/// body, the clean-up runs as its own session, handed out by `body_done`.
pub struct ApplyScope {
    pub name: String,
    pub remaining: Vec<ToxicPack>,
    pub state: ApplyState,
}

impl ApplyScope {
    /// Starts an apply scope for a handle, consuming it; the first step
    /// submits the first declared toxic, or runs the body at once when
    /// nothing was declared.
    pub fn begin(proxy: Proxy) -> (r: (ApplyScope, ScopeStep))
        ensures
            r.0.name@ == proxy.proxy_pack.name@,
            proxy.pending.deep_view().len() == 0 ==> {
                &&& r.0.state is Body
                &&& r.1 is RunBody
            },
            proxy.pending.deep_view().len() > 0 ==> {
                &&& r.0.state is AwaitCreate
                &&& r.0.remaining.deep_view() == proxy.pending.deep_view().skip(1)
                &&& r.1 matches ScopeStep::Send(c) && c@ == CommandView::AddToxic(
                    proxy.proxy_pack.name@,
                    proxy.pending.deep_view()[0],
                )
            },
    {
        let ghost pending0 = proxy.pending.deep_view();
        let Proxy { proxy_pack, mut pending } = proxy;
        let name = proxy_pack.name;
        if pending.len() == 0 {
            (ApplyScope { name, remaining: pending, state: ApplyState::Body }, ScopeStep::RunBody)
        } else {
            let toxic = pending.remove(0);
            proof {
                assert(pending.deep_view() =~~= pending0.skip(1));
            }
            let cmd = Command::AddToxic(name.clone(), toxic);
            (
                ApplyScope { name, remaining: pending, state: ApplyState::AwaitCreate },
                ScopeStep::Send(cmd),
            )
        }
    }

    /// Feeds the reply to the last toxic submission into the session.
    pub fn advance(self, reply: Reply) -> (r: (ApplyScope, ScopeStep))
        requires
            self.state is AwaitCreate,
        ensures
            r.0.name@ == self.name@,
            match ack_decision(reply@) {
                Err(e) => {
                    &&& r.0.state is Finished
                    &&& r.1 matches ScopeStep::Done(res) && res matches Err(err) && err@ == e
                },
                Ok(_) => if self.remaining.deep_view().len() > 0 {
                    &&& r.0.state is AwaitCreate
                    &&& r.0.remaining.deep_view() == self.remaining.deep_view().skip(1)
                    &&& r.1 matches ScopeStep::Send(c) && c@ == CommandView::AddToxic(
                        self.name@,
                        self.remaining.deep_view()[0],
                    )
                } else {
                    &&& r.0.state is Body
                    &&& r.1 is RunBody
                },
            },
    {
        let ghost remaining0 = self.remaining.deep_view();
        let ApplyScope { name, mut remaining, state: _ } = self;
        match decode_ack(reply) {
            Err(e) => (
                ApplyScope { name, remaining, state: ApplyState::Finished },
                ScopeStep::Done(Err(e)),
            ),
            Ok(_) => {
                if remaining.len() > 0 {
                    let toxic = remaining.remove(0);
                    proof {
                        assert(remaining.deep_view() =~~= remaining0.skip(1));
                    }
                    let cmd = Command::AddToxic(name.clone(), toxic);
                    (
                        ApplyScope { name, remaining, state: ApplyState::AwaitCreate },
                        ScopeStep::Send(cmd),
                    )
                } else {
                    (ApplyScope { name, remaining, state: ApplyState::Body }, ScopeStep::RunBody)
                }
            },
        }
    }

    /// The caller's body has run; what follows is the toxic clean-up, handed
    /// out as its own session with its listing command.
    pub fn body_done(self) -> (r: (ClearToxics, Command))
        requires
            self.state is Body,
        ensures
            r.0@ == clear_started(self.name@),
            clear_wf(r.0@),
            r.1@ == CommandView::ListToxics(self.name@),
    {
        let ApplyScope { name, remaining: _, state: _ } = self;
        ClearToxics::begin(name)
    }
}

// ---------------------------------------------------------------------------
// Fetching a proxy and guaranteeing a clean baseline.
// ---------------------------------------------------------------------------

/// What a fetch session hands the driver next.
pub enum FindStep {
    /// Perform this command and hand the reply to `advance`.
    Send(Command),
    /// The session is over, with the fetched handle or the failure.
    Done(Result<Proxy, ClientError>),
}

/// Mathematical form of [`FindStep`].
pub enum FindStepView {
    Send(CommandView),
    Done(Result<ProxyHandleView, ClientErrorView>),
}

impl View for FindStep {
    type V = FindStepView;

    open spec fn view(&self) -> FindStepView {
        match self {
            FindStep::Send(c) => FindStepView::Send(c@),
            FindStep::Done(res) => FindStepView::Done(result_view(*res)),
        }
    }
}

/// Where a fetch-with-clean-baseline stands.
pub enum FindState {
    /// The fetch command is out; its reply is awaited.
    AwaitFetch,
    /// The configuration came back; its toxics are being cleared.
    Clearing { pack: ProxyPack, clear: ClearToxics },
    /// The session is over.
    Finished,
}

/// Mathematical form of [`FindState`].
pub enum FindStateView {
    AwaitFetch,
    Clearing { pack: ProxyView, clear: ClearView },
    Finished,
}

/// Mathematical form of a fetch session.
#[verifier::ext_equal]
pub struct FindView {
    pub name: Seq<char>,
    pub state: FindStateView,
}

/// Fetches one proxy by name and clears any pre-existing toxics off it before
/// handing the caller the handle, so every caller starts from a deterministic
/// no-active-fault baseline. A failure to clear after a successful fetch is
/// fatal to the whole fetch.
pub struct FindProxy {
    pub name: String,
    pub state: FindState,
}

impl View for FindProxy {
    type V = FindView;

    open spec fn view(&self) -> FindView {
        FindView {
            name: self.name@,
            state: match self.state {
                FindState::AwaitFetch => FindStateView::AwaitFetch,
                FindState::Clearing { pack, clear } => (FindStateView::Clearing {
                    pack: pack@,
                    clear: clear@,
                }),
                FindState::Finished => FindStateView::Finished,
            },
        }
    }
}

/// The view a fetch session starts from.
pub open spec fn find_started(name: Seq<char>) -> FindView {
    FindView { name, state: FindStateView::AwaitFetch }
}

/// The session's internal consistency.
pub open spec fn find_wf(s: FindView) -> bool {
    match s.state {
        FindStateView::Clearing { pack, clear } => {
            &&& clear_wf(clear)
            &&& !(clear.state is Finished)
            &&& clear.name == s.name
        },
        _ => true,
    }
}

/// The handle a fetched configuration becomes once its toxics are cleared.
pub open spec fn cleared_handle(p: ProxyView) -> ProxyHandleView {
    ProxyHandleView {
        config: ProxyView { toxics: Seq::empty(), ..p },
        pending: Seq::empty(),
    }
}

/// How one reply moves a fetch session forward. Total: in a finished session
/// the reply is ignored.
pub open spec fn find_next(pre: FindView, reply: ReplyView) -> (FindView, FindStepView) {
    match pre.state {
        FindStateView::AwaitFetch => match fetch_decision(pre.name, reply) {
            Err(e) => (
                FindView { state: FindStateView::Finished, ..pre },
                FindStepView::Done(Err(e)),
            ),
            Ok(p) => (
                FindView {
                    state: FindStateView::Clearing { pack: p, clear: clear_started(pre.name) },
                    ..pre
                },
                FindStepView::Send(CommandView::ListToxics(pre.name)),
            ),
        },
        FindStateView::Clearing { pack, clear } => {
            let (clear2, istep) = clear_next(clear, reply);
            match istep {
                ClearStepView::Send(c) => (
                    FindView {
                        state: FindStateView::Clearing { pack, clear: clear2 },
                        ..pre
                    },
                    FindStepView::Send(c),
                ),
                ClearStepView::Done(res) => match res {
                    Ok(_) => (
                        FindView { state: FindStateView::Finished, ..pre },
                        FindStepView::Done(Ok(cleared_handle(pack))),
                    ),
                    Err(e) => (
                        FindView { state: FindStateView::Finished, ..pre },
                        FindStepView::Done(Err(e)),
                    ),
                },
            }
        },
        FindStateView::Finished => (
            pre,
            FindStepView::Done(Err(ClientErrorView::Transport(Seq::empty()))),
        ),
    }
}

impl FindProxy {
    /// Starts a fetch of the proxy called `name`; the returned command is the
    /// fetch to perform first.
    pub fn begin(name: String) -> (r: (FindProxy, Command))
        ensures
            r.0@.name == name@,
            r.0@.state is AwaitFetch,
            find_wf(r.0@),
            r.1@ == CommandView::FetchProxy(name@),
    {
        let cmd = Command::FetchProxy(name.clone());
        (FindProxy { name, state: FindState::AwaitFetch }, cmd)
    }

    /// Feeds the reply to the last emitted command into the session.
    pub fn advance(self, reply: Reply) -> (r: (FindProxy, FindStep))
        requires
            find_wf(self@),
            !(self@.state is Finished),
        ensures
            find_wf(r.0@),
            r.0@ == find_next(self@, reply@).0,
            r.1@ == find_next(self@, reply@).1,
    {
        let ghost pre = self@;
        let FindProxy { name, state } = self;
        match state {
            FindState::AwaitFetch => match decode_proxy(&name, reply) {
                Err(e) => {
                    let s = FindProxy { name, state: FindState::Finished };
                    proof {
                        assert(s@ =~~= find_next(pre, reply@).0);
                    }
                    (s, FindStep::Done(Err(e)))
                },
                Ok(pack) => {
                    let (clear, cmd) = ClearToxics::begin(name.clone());
                    let s = FindProxy { name, state: FindState::Clearing { pack, clear } };
                    proof {
                        assert(s@ =~~= find_next(pre, reply@).0);
                    }
                    (s, FindStep::Send(cmd))
                },
            },
            FindState::Clearing { pack, clear } => {
                let ghost pack0 = pack@;
                let (clear2, istep) = clear.advance(reply);
                match istep {
                    ClearStep::Send(c) => {
                        let s = FindProxy {
                            name,
                            state: FindState::Clearing { pack, clear: clear2 },
                        };
                        proof {
                            assert(s@ =~~= find_next(pre, reply@).0);
                        }
                        (s, FindStep::Send(c))
                    },
                    ClearStep::Done(res) => match res {
                        Ok(_) => {
                            let mut pack = pack;
                            pack.toxics = Vec::new();
                            let handle = Proxy::new(pack);
                            let s = FindProxy { name, state: FindState::Finished };
                            proof {
                                assert(handle.deep_view() =~~= cleared_handle(pack0));
                                assert(s@ =~~= find_next(pre, reply@).0);
                            }
                            (s, FindStep::Done(Ok(handle)))
                        },
                        Err(e) => {
                            let s = FindProxy { name, state: FindState::Finished };
                            proof {
                                assert(s@ =~~= find_next(pre, reply@).0);
                            }
                            (s, FindStep::Done(Err(e)))
                        },
                    },
                }
            },
            FindState::Finished => {
                // Not reachable: excluded by the precondition.
                let s = FindProxy { name, state: FindState::Finished };
                (s, FindStep::Done(Err(ClientError::Transport(String::new()))))
            },
        }
    }
}

// ---------------------------------------------------------------------------
// Fetching a proxy, clearing its toxics and re-enabling it.
// ---------------------------------------------------------------------------

/// Where a fetch-and-reset stands.
pub enum FarState {
    /// The fetch-with-clean-baseline is running.
    Finding(FindProxy),
    /// The enable command is out; its reply is awaited.
    AwaitEnable { handle: Proxy },
    /// The session is over.
    Finished,
}

/// Mathematical form of [`FarState`].
pub enum FarStateView {
    Finding(FindView),
    AwaitEnable(ProxyHandleView),
    Finished,
}

/// Mathematical form of a fetch-and-reset session.
#[verifier::ext_equal]
pub struct FarView {
    pub name: Seq<char>,
    pub state: FarStateView,
}

/// Fetches one proxy, clears its toxics, and explicitly re-enables it,
/// covering the case where a prior aborted run left the proxy disabled.
pub struct FindAndReset {
    pub name: String,
    pub state: FarState,
}

impl View for FindAndReset {
    type V = FarView;

    open spec fn view(&self) -> FarView {
        FarView {
            name: self.name@,
            state: match self.state {
                FarState::Finding(inner) => FarStateView::Finding(inner@),
                FarState::AwaitEnable { handle } => FarStateView::AwaitEnable(handle@),
                FarState::Finished => FarStateView::Finished,
            },
        }
    }
}

/// The session's internal consistency.
pub open spec fn far_wf(s: FarView) -> bool {
    match s.state {
        FarStateView::Finding(inner) => {
            &&& find_wf(inner)
            &&& !(inner.state is Finished)
            &&& inner.name == s.name
        },
        _ => true,
    }
}

/// How one reply moves a fetch-and-reset forward. Total: in a finished
/// session the reply is ignored.
pub open spec fn far_next(pre: FarView, reply: ReplyView) -> (FarView, FindStepView) {
    match pre.state {
        FarStateView::Finding(inner) => {
            let (inner2, istep) = find_next(inner, reply);
            match istep {
                FindStepView::Send(c) => (
                    FarView { state: FarStateView::Finding(inner2), ..pre },
                    FindStepView::Send(c),
                ),
                FindStepView::Done(res) => match res {
                    Ok(h) => (
                        FarView { state: FarStateView::AwaitEnable(h), ..pre },
                        FindStepView::Send(CommandView::SetEnabled(h.config.name, true)),
                    ),
                    Err(e) => (
                        FarView { state: FarStateView::Finished, ..pre },
                        FindStepView::Done(Err(e)),
                    ),
                },
            }
        },
        FarStateView::AwaitEnable(h) => match ack_decision(reply) {
            Err(e) => (
                FarView { state: FarStateView::Finished, ..pre },
                FindStepView::Done(Err(e)),
            ),
            Ok(_) => (
                FarView { state: FarStateView::Finished, ..pre },
                FindStepView::Done(Ok(h)),
            ),
        },
        FarStateView::Finished => (
            pre,
            FindStepView::Done(Err(ClientErrorView::Transport(Seq::empty()))),
        ),
    }
}

impl FindAndReset {
    /// Starts a fetch-and-reset of the proxy called `name`; the returned
    /// command is the fetch to perform first.
    pub fn begin(name: String) -> (r: (FindAndReset, Command))
        ensures
            r.0@.name == name@,
            far_wf(r.0@),
            r.0@.state matches FarStateView::Finding(inner) && inner.state is AwaitFetch,
            r.1@ == CommandView::FetchProxy(name@),
    {
        let (inner, cmd) = FindProxy::begin(name.clone());
        (FindAndReset { name, state: FarState::Finding(inner) }, cmd)
    }

    /// Feeds the reply to the last emitted command into the session.
    pub fn advance(self, reply: Reply) -> (r: (FindAndReset, FindStep))
        requires
            far_wf(self@),
            !(self@.state is Finished),
        ensures
            far_wf(r.0@),
            r.0@ == far_next(self@, reply@).0,
            r.1@ == far_next(self@, reply@).1,
    {
        let ghost pre = self@;
        let FindAndReset { name, state } = self;
        match state {
            FarState::Finding(inner) => {
                let (inner2, istep) = inner.advance(reply);
                match istep {
                    FindStep::Send(c) => {
                        let s = FindAndReset { name, state: FarState::Finding(inner2) };
                        proof {
                            assert(s@ =~~= far_next(pre, reply@).0);
                        }
                        (s, FindStep::Send(c))
                    },
                    FindStep::Done(res) => match res {
                        Ok(handle) => {
                            let cmd = handle.enable();
                            let s = FindAndReset {
                                name,
                                state: FarState::AwaitEnable { handle },
                            };
                            proof {
                                assert(s@ =~~= far_next(pre, reply@).0);
                            }
                            (s, FindStep::Send(cmd))
                        },
                        Err(e) => {
                            let s = FindAndReset { name, state: FarState::Finished };
                            proof {
                                assert(s@ =~~= far_next(pre, reply@).0);
                            }
                            (s, FindStep::Done(Err(e)))
                        },
                    },
                }
            },
            FarState::AwaitEnable { handle } => match decode_ack(reply) {
                Err(e) => {
                    let s = FindAndReset { name, state: FarState::Finished };
                    proof {
                        assert(s@ =~~= far_next(pre, reply@).0);
                    }
                    (s, FindStep::Done(Err(e)))
                },
                Ok(_) => {
                    let s = FindAndReset { name, state: FarState::Finished };
                    proof {
                        assert(s@ =~~= far_next(pre, reply@).0);
                    }
                    (s, FindStep::Done(Ok(handle)))
                },
            },
            FarState::Finished => {
                // Not reachable: excluded by the precondition.
                let s = FindAndReset { name, state: FarState::Finished };
                (s, FindStep::Done(Err(ClientError::Transport(String::new()))))
            },
        }
    }
}

/// A clean-up that ends well has emitted exactly the clear script of the
/// toxics the service listed.
pub proof fn lemma_clear_log_complete(pre: ClearView, reply: ReplyView)
    requires
        clear_wf(pre),
        pre.state matches ClearStateView::AwaitRemoval { queue, sent } && sent == queue.len(),
        ack_decision(reply) is Ok,
    ensures
        clear_next(pre, reply).0.log == clear_script(
            pre.name,
            pre.state->AwaitRemoval_queue,
        ),
        clear_next(pre, reply).1 == ClearStepView::Done(Ok::<(), ClientErrorView>(())),
{
    let queue = pre.state->AwaitRemoval_queue;
    assert(queue.take(queue.len() as int) =~= queue);
    assert(pre.log =~= clear_script(pre.name, queue));
}

} // verus!
