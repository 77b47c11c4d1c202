//! Proxy configuration records and the client-side proxy handle.
//!
//! A [`ProxyPack`] is the plain configuration of one named proxy: what it
//! listens on, what it forwards to, whether it is enabled, and the toxics the
//! control service reports on it. A [`Proxy`] is the handle test code works
//! with: a configuration snapshot plus the fault effects declared on it that
//! have not yet been submitted. The handle's builder methods accumulate
//! descriptors; a scoped run (see the session module) submits them, so a
//! failed submission surfaces as an error instead of aborting the process.

use vstd::prelude::*;

use crate::channel::{Command, CommandView};
use crate::toxic::{
    bandwidth_toxic, latency_toxic, limit_data_toxic, slicer_toxic, slow_close_toxic,
    timeout_toxic, ToxicPack, ToxicValueType, ToxicView, Toxicity,
};

verus! {

/// Mathematical form of a proxy configuration.
#[verifier::ext_equal]
pub struct ProxyView {
    pub name: Seq<char>,
    pub listen: Seq<char>,
    pub upstream: Seq<char>,
    pub enabled: bool,
    pub toxics: Seq<ToxicView>,
}

/// Configuration of one named proxy. The name uniquely identifies the proxy
/// on the control service; listen and upstream are fixed at creation.
#[derive(Debug)]
pub struct ProxyPack {
    pub name: String,
    pub listen: String,
    pub upstream: String,
    pub enabled: bool,
    pub toxics: Vec<ToxicPack>,
}

impl View for ProxyPack {
    type V = ProxyView;

    open spec fn view(&self) -> ProxyView {
        ProxyView {
            name: self.name@,
            listen: self.listen@,
            upstream: self.upstream@,
            enabled: self.enabled,
            toxics: self.toxics.deep_view(),
        }
    }
}

impl DeepView for ProxyPack {
    type V = ProxyView;

    open spec fn deep_view(&self) -> ProxyView {
        self.view()
    }
}

impl ProxyPack {
    /// A fresh configuration: enabled, with no toxics.
    pub fn new(name: String, listen: String, upstream: String) -> (r: ProxyPack)
        ensures
            r@.name == name@,
            r@.listen == listen@,
            r@.upstream == upstream@,
            r@.enabled,
            r@.toxics =~= Seq::<ToxicView>::empty(),
    {
        let toxics: Vec<ToxicPack> = Vec::new();
        ProxyPack { name, listen, upstream, enabled: true, toxics }
    }

    /// An exact copy of the configuration.
    pub fn duplicate(&self) -> (r: ProxyPack)
        ensures
            r@ == self@,
    {
        let src = &self.toxics;
        let mut toxics: Vec<ToxicPack> = Vec::new();
        let mut i: usize = 0;
        while i < src.len()
            invariant
                i <= src@.len(),
                toxics.deep_view() == src.deep_view().take(i as int),
            decreases src@.len() - i,
        {
            let ghost k = i as int;
            let ghost raw0 = toxics@;
            let ghost dv0 = toxics.deep_view();
            proof {
                assert(src.deep_view().len() == src@.len());
                assert(dv0.len() == k);
                assert(raw0.len() == k);
            }
            let toxic = src[i].duplicate();
            proof {
                assert(toxic.deep_view() == src.deep_view()[k]);
            }
            toxics.push(toxic);
            proof {
                assert forall|j: int| 0 <= j < toxics@.len() implies toxics.deep_view()[j]
                    == src.deep_view().take(k + 1)[j] by {
                    assert(toxics.deep_view()[j] == toxics@[j].deep_view());
                    if j < k {
                        assert(toxics@[j] == raw0[j]);
                        assert(raw0[j].deep_view() == dv0[j]);
                        assert(dv0[j] == src.deep_view().take(k)[j]);
                        assert(src.deep_view().take(k)[j] == src.deep_view()[j]);
                    }
                }
                assert(toxics.deep_view() =~~= src.deep_view().take(k + 1));
            }
            i = i + 1;
        }
        proof {
            assert(src.deep_view().take(src@.len() as int) =~= src.deep_view());
        }
        let r = ProxyPack {
            name: self.name.clone(),
            listen: self.listen.clone(),
            upstream: self.upstream.clone(),
            enabled: self.enabled,
            toxics,
        };
        proof {
            assert(r@ =~~= self@);
        }
        r
    }
}

/// An exact copy of a whole configuration list.
pub fn duplicate_all(packs: &Vec<ProxyPack>) -> (r: Vec<ProxyPack>)
    ensures
        r.deep_view() == packs.deep_view(),
{
    let mut out: Vec<ProxyPack> = Vec::new();
    let mut i: usize = 0;
    while i < packs.len()
        invariant
            i <= packs@.len(),
            out.deep_view() == packs.deep_view().take(i as int),
        decreases packs@.len() - i,
    {
        let ghost k = i as int;
        let ghost raw0 = out@;
        let ghost dv0 = out.deep_view();
        proof {
            assert(packs.deep_view().len() == packs@.len());
            assert(dv0.len() == k);
            assert(raw0.len() == k);
        }
        let pack = packs[i].duplicate();
        proof {
            assert(pack.deep_view() == packs.deep_view()[k]);
        }
        out.push(pack);
        proof {
            assert forall|j: int| 0 <= j < out@.len() implies out.deep_view()[j]
                == packs.deep_view().take(k + 1)[j] by {
                assert(out.deep_view()[j] == out@[j].deep_view());
                if j < k {
                    assert(out@[j] == raw0[j]);
                    assert(raw0[j].deep_view() == dv0[j]);
                    assert(dv0[j] == packs.deep_view().take(k)[j]);
                    assert(packs.deep_view().take(k)[j] == packs.deep_view()[j]);
                }
            }
            assert(out.deep_view() =~~= packs.deep_view().take(k + 1));
        }
        i = i + 1;
    }
    proof {
        assert(packs.deep_view().take(packs@.len() as int) =~= packs.deep_view());
    }
    out
}

/// Client handle of one proxy: the configuration snapshot last seen from the
/// control service, and the toxics declared on the handle but not yet
/// submitted. The snapshot is not refreshed by mutating calls; callers
/// re-fetch to observe current server state.
#[derive(Debug)]
pub struct Proxy {
    pub proxy_pack: ProxyPack,
    pub pending: Vec<ToxicPack>,
}

/// Mathematical form of a proxy handle.
#[verifier::ext_equal]
pub struct ProxyHandleView {
    pub config: ProxyView,
    pub pending: Seq<ToxicView>,
}

impl View for Proxy {
    type V = ProxyHandleView;

    open spec fn view(&self) -> ProxyHandleView {
        ProxyHandleView { config: self.proxy_pack@, pending: self.pending.deep_view() }
    }
}

impl DeepView for Proxy {
    type V = ProxyHandleView;

    open spec fn deep_view(&self) -> ProxyHandleView {
        self.view()
    }
}

/// The handle a freshly fetched configuration wraps into.
pub open spec fn handle_of(config: ProxyView) -> ProxyHandleView {
    ProxyHandleView { config, pending: Seq::empty() }
}

impl Proxy {
    /// Wraps a configuration into a handle with nothing pending.
    pub fn new(proxy_pack: ProxyPack) -> (r: Proxy)
        ensures
            r.proxy_pack@ == proxy_pack@,
            r.pending.deep_view() =~= Seq::<ToxicView>::empty(),
    {
        let pending: Vec<ToxicPack> = Vec::new();
        Proxy { proxy_pack, pending }
    }

    /// Declares a latency toxic on the handle; submitted by a scoped run.
    pub fn with_latency(
        self,
        stream: String,
        latency: ToxicValueType,
        jitter: ToxicValueType,
        toxicity: Toxicity,
    ) -> (r: Proxy)
        requires
            toxicity.wf(),
        ensures
            r.proxy_pack@ == self.proxy_pack@,
            r.pending.deep_view() == self.pending.deep_view().push(
                latency_toxic(stream@, latency, jitter, toxicity),
            ),
    {
        let toxic = ToxicPack::latency(stream, latency, jitter, toxicity);
        self.with_toxic(toxic)
    }

    /// Declares a bandwidth toxic on the handle.
    pub fn with_bandwidth(
        self,
        stream: String,
        rate: ToxicValueType,
        toxicity: Toxicity,
    ) -> (r: Proxy)
        requires
            toxicity.wf(),
        ensures
            r.proxy_pack@ == self.proxy_pack@,
            r.pending.deep_view() == self.pending.deep_view().push(
                bandwidth_toxic(stream@, rate, toxicity),
            ),
    {
        let toxic = ToxicPack::bandwidth(stream, rate, toxicity);
        self.with_toxic(toxic)
    }

    /// Declares a slow-close toxic on the handle.
    pub fn with_slow_close(
        self,
        stream: String,
        delay: ToxicValueType,
        toxicity: Toxicity,
    ) -> (r: Proxy)
        requires
            toxicity.wf(),
        ensures
            r.proxy_pack@ == self.proxy_pack@,
            r.pending.deep_view() == self.pending.deep_view().push(
                slow_close_toxic(stream@, delay, toxicity),
            ),
    {
        let toxic = ToxicPack::slow_close(stream, delay, toxicity);
        self.with_toxic(toxic)
    }

    /// Declares a timeout toxic on the handle.
    pub fn with_timeout(
        self,
        stream: String,
        timeout: ToxicValueType,
        toxicity: Toxicity,
    ) -> (r: Proxy)
        requires
            toxicity.wf(),
        ensures
            r.proxy_pack@ == self.proxy_pack@,
            r.pending.deep_view() == self.pending.deep_view().push(
                timeout_toxic(stream@, timeout, toxicity),
            ),
    {
        let toxic = ToxicPack::timeout(stream, timeout, toxicity);
        self.with_toxic(toxic)
    }

    /// Declares a slicer toxic on the handle.
    pub fn with_slicer(
        self,
        stream: String,
        average_size: ToxicValueType,
        size_variation: ToxicValueType,
        delay: ToxicValueType,
        toxicity: Toxicity,
    ) -> (r: Proxy)
        requires
            toxicity.wf(),
        ensures
            r.proxy_pack@ == self.proxy_pack@,
            r.pending.deep_view() == self.pending.deep_view().push(
                slicer_toxic(stream@, average_size, size_variation, delay, toxicity),
            ),
    {
        let toxic = ToxicPack::slicer(stream, average_size, size_variation, delay, toxicity);
        self.with_toxic(toxic)
    }

    /// Declares a limit-data toxic on the handle.
    pub fn with_limit_data(
        self,
        stream: String,
        bytes: ToxicValueType,
        toxicity: Toxicity,
    ) -> (r: Proxy)
        requires
            toxicity.wf(),
        ensures
            r.proxy_pack@ == self.proxy_pack@,
            r.pending.deep_view() == self.pending.deep_view().push(
                limit_data_toxic(stream@, bytes, toxicity),
            ),
    {
        let toxic = ToxicPack::limit_data(stream, bytes, toxicity);
        self.with_toxic(toxic)
    }

    /// The partial update that sets this proxy's enabled flag.
    pub fn update(&self, enabled: bool) -> (c: Command)
        ensures
            c@ == CommandView::SetEnabled(self.proxy_pack.name@, enabled),
    {
        Command::SetEnabled(self.proxy_pack.name.clone(), enabled)
    }

    /// The command that disables the proxy, failing connections through it.
    pub fn disable(&self) -> (c: Command)
        ensures
            c@ == CommandView::SetEnabled(self.proxy_pack.name@, false),
    {
        self.update(false)
    }

    /// The command that enables the proxy.
    pub fn enable(&self) -> (c: Command)
        ensures
            c@ == CommandView::SetEnabled(self.proxy_pack.name@, true),
    {
        self.update(true)
    }

    /// The command that removes the proxy and all its toxics.
    pub fn delete(&self) -> (c: Command)
        ensures
            c@ == CommandView::RemoveProxy(self.proxy_pack.name@),
    {
        Command::RemoveProxy(self.proxy_pack.name.clone())
    }

    /// The command that lists the toxics registered on the proxy.
    pub fn toxics(&self) -> (c: Command)
        ensures
            c@ == CommandView::ListToxics(self.proxy_pack.name@),
    {
        Command::ListToxics(self.proxy_pack.name.clone())
    }

    /// Starts a scoped disable: disable the proxy, run the caller's body,
    /// re-enable it. The returned command is the disabling update.
    pub fn with_down(&self) -> (r: (crate::session::DownScope, Command))
        ensures
            r.0.name@ == self.proxy_pack.name@,
            r.0.state is AwaitDisable,
            r.1@ == CommandView::SetEnabled(self.proxy_pack.name@, false),
    {
        crate::session::DownScope::begin(self.proxy_pack.name.clone())
    }

    /// Starts a scoped disable; same protocol as [`Proxy::with_down`].
    pub fn down(&self) -> (r: (crate::session::DownScope, Command))
        ensures
            r.0.name@ == self.proxy_pack.name@,
            r.0.state is AwaitDisable,
            r.1@ == CommandView::SetEnabled(self.proxy_pack.name@, false),
    {
        self.with_down()
    }

    /// Starts an apply scope, consuming the handle: submit every declared
    /// toxic, run the caller's body, then clear every toxic off the proxy.
    pub fn apply(self) -> (r: (crate::session::ApplyScope, crate::session::ScopeStep))
        ensures
            r.0.name@ == self.proxy_pack.name@,
            self.pending.deep_view().len() == 0 ==> {
                &&& r.0.state is Body
                &&& r.1 is RunBody
            },
            self.pending.deep_view().len() > 0 ==> {
                &&& r.0.state is AwaitCreate
                &&& r.0.remaining.deep_view() == self.pending.deep_view().skip(1)
                &&& r.1 matches crate::session::ScopeStep::Send(c) && c@ == CommandView::AddToxic(
                    self.proxy_pack.name@,
                    self.pending.deep_view()[0],
                )
            },
    {
        crate::session::ApplyScope::begin(self)
    }

    /// Starts a clean-up that deletes every toxic currently registered on the
    /// proxy. The returned command is the toxic listing to perform first.
    pub fn delete_all_toxics(&self) -> (r: (crate::session::ClearToxics, Command))
        ensures
            r.0@ == crate::session::clear_started(self.proxy_pack.name@),
            crate::session::clear_wf(r.0@),
            r.1@ == CommandView::ListToxics(self.proxy_pack.name@),
    {
        crate::session::ClearToxics::begin(self.proxy_pack.name.clone())
    }

    /// Appends one declared toxic to the pending list.
    fn with_toxic(self, toxic: ToxicPack) -> (r: Proxy)
        ensures
            r.proxy_pack@ == self.proxy_pack@,
            r.pending.deep_view() == self.pending.deep_view().push(toxic@),
    {
        let ghost pending0 = self.pending.deep_view();
        let ghost toxic0 = toxic@;
        let Proxy { proxy_pack, mut pending } = self;
        pending.push(toxic);
        proof {
            assert(pending.deep_view() =~= pending0.push(toxic0));
        }
        Proxy { proxy_pack, pending }
    }
}

} // verus!
