//! The registry client: bulk operations over the whole proxy set, and the
//! entry point that mints proxy handles.
//!
//! The client owns the channel face (the service's base address); the shared
//! connection, and the mutual exclusion that serializes every operation onto
//! it, live with the transport outside this crate. Each single-exchange
//! operation has a command builder and a decision on its reply; the
//! fetch-with-clean-baseline operations hand back sessions from the session
//! module.

use vstd::prelude::*;

use crate::channel::{
    decode_populated, decode_proxy_table, decode_version, populate_decision, result_view,
    table_decision, version_decision, ClientError, ClientErrorView, Command, CommandView,
    HttpClient, Reply,
};
use crate::proxy::{handle_of, Proxy, ProxyHandleView, ProxyPack, ProxyView};
use crate::session::{FindAndReset, FindProxy};

verus! {

/// The handles that wrap a sequence of fetched configurations.
pub open spec fn handles_of(configs: Seq<ProxyView>) -> Seq<ProxyHandleView> {
    configs.map_values(|c: ProxyView| handle_of(c))
}

/// The outcome of a replace-all, with each resulting configuration wrapped
/// into a handle.
pub open spec fn populate_handles(d: Result<Seq<ProxyView>, ClientErrorView>) -> Result<
    Seq<ProxyHandleView>,
    ClientErrorView,
> {
    match d {
        Ok(configs) => Ok(handles_of(configs)),
        Err(e) => Err(e),
    }
}

/// The handles that wrap a table of fetched configurations, keyed by name.
pub open spec fn table_handles(d: Result<Seq<(Seq<char>, ProxyView)>, ClientErrorView>) -> Result<
    Seq<(Seq<char>, ProxyHandleView)>,
    ClientErrorView,
> {
    match d {
        Ok(entries) => Ok(
            entries.map_values(|e: (Seq<char>, ProxyView)| (e.0, handle_of(e.1))),
        ),
        Err(e) => Err(e),
    }
}

/// The top-level entry point: issues bulk operations and mints handles bound
/// to the shared channel.
#[derive(Debug)]
pub struct Client {
    pub http: HttpClient,
}

impl Client {
    /// A client bound to a control service base address such as
    /// `http://host:port`.
    pub fn new(base_uri: String) -> (r: Client)
        ensures
            r.http.base_uri@ == base_uri@,
    {
        Client { http: HttpClient::new(base_uri) }
    }

    /// The command that replaces the whole proxy set with `proxies`; the
    /// service creates or replaces each by name.
    pub fn populate(&self, proxies: Vec<ProxyPack>) -> (c: Command)
        ensures
            c@ == CommandView::Populate(proxies.deep_view()),
    {
        Command::Populate(proxies)
    }

    /// Decides a reply to a replace-all: each resulting configuration is
    /// wrapped into a handle, in the order the service returned them.
    pub fn populate_result(reply: Reply) -> (r: Result<Vec<Proxy>, ClientError>)
        ensures
            result_view(r) == populate_handles(populate_decision(reply@)),
    {
        match decode_populated(reply) {
            Err(e) => Err(e),
            Ok(mut configs) => {
                let ghost cs0 = configs.deep_view();
                let mut handles: Vec<Proxy> = Vec::new();
                while configs.len() > 0
                    invariant
                        handles@.len() <= cs0.len(),
                        handles.deep_view() == handles_of(cs0.take(handles@.len() as int)),
                        configs.deep_view() == cs0.skip(handles@.len() as int),
                    decreases configs@.len(),
                {
                    let ghost k = handles@.len() as int;
                    let ghost raw0 = configs@;
                    let ghost dv0 = configs.deep_view();
                    proof {
                        assert(cs0.skip(k).len() == cs0.len() - k);
                        assert(0 <= k < cs0.len());
                    }
                    let pack = configs.remove(0);
                    proof {
                        assert(pack.deep_view() == dv0[0]);
                        assert(pack@ == cs0[k]);
                        assert forall|j: int| 0 <= j < configs@.len() implies
                            configs.deep_view()[j] == cs0.skip(k + 1)[j] by {
                            assert(configs@[j] == raw0[j + 1]);
                            assert(configs.deep_view()[j] == configs@[j].deep_view());
                            assert(raw0[j + 1].deep_view() == dv0[j + 1]);
                            assert(dv0[j + 1] == cs0.skip(k)[j + 1]);
                            assert(cs0.skip(k)[j + 1] == cs0[k + 1 + j]);
                        }
                        assert(configs.deep_view() =~~= cs0.skip(k + 1));
                    }
                    let handle = Proxy::new(pack);
                    proof {
                        assert(handle.deep_view() =~~= handle_of(pack@));
                    }
                    let ghost hraw0 = handles@;
                    let ghost hs0 = handles.deep_view();
                    handles.push(handle);
                    proof {
                        assert forall|j: int| 0 <= j < handles@.len() implies
                            handles.deep_view()[j] == handles_of(cs0.take(k + 1))[j] by {
                            assert(handles.deep_view()[j] == handles@[j].deep_view());
                            assert(handles_of(cs0.take(k + 1))[j] == handle_of(cs0.take(k + 1)[j]));
                            assert(cs0.take(k + 1)[j] == cs0[j]);
                            if j < k {
                                assert(handles@[j] == hraw0[j]);
                                assert(hraw0[j].deep_view() == hs0[j]);
                                assert(hs0[j] == handles_of(cs0.take(k))[j]);
                                assert(handles_of(cs0.take(k))[j] == handle_of(cs0.take(k)[j]));
                                assert(cs0.take(k)[j] == cs0[j]);
                            } else {
                                assert(handles@[j] == handle);
                            }
                        }
                        assert(handles.deep_view() =~~= handles_of(cs0.take(k + 1)));
                    }
                }
                proof {
                    assert(cs0.take(handles@.len() as int) =~= cs0);
                    assert(handles.deep_view() =~~= handles_of(cs0));
                }
                Ok(handles)
            },
        }
    }

    /// The command that re-enables every proxy and clears every active toxic:
    /// the canonical clean slate a test run starts from.
    pub fn reset(&self) -> (c: Command)
        ensures
            c@ == CommandView::ResetState,
    {
        Command::ResetState
    }

    /// The command that lists every proxy with its configuration.
    pub fn all(&self) -> (c: Command)
        ensures
            c@ == CommandView::ListProxies,
    {
        Command::ListProxies
    }

    /// Decides a reply to a listing of every proxy: each configuration is
    /// wrapped into a handle, keyed by its name as the service returned it.
    pub fn all_result(reply: Reply) -> (r: Result<Vec<(String, Proxy)>, ClientError>)
        ensures
            result_view(r) == table_handles(table_decision(reply@)),
    {
        match decode_proxy_table(reply) {
            Err(e) => Err(e),
            Ok(mut entries) => {
                let ghost es0 = entries.deep_view();
                let mut handles: Vec<(String, Proxy)> = Vec::new();
                while entries.len() > 0
                    invariant
                        handles@.len() <= es0.len(),
                        handles.deep_view() == es0.take(handles@.len() as int).map_values(
                            |e: (Seq<char>, ProxyView)| (e.0, handle_of(e.1)),
                        ),
                        entries.deep_view() == es0.skip(handles@.len() as int),
                    decreases entries@.len(),
                {
                    let ghost k = handles@.len() as int;
                    let ghost raw0 = entries@;
                    let ghost dv0 = entries.deep_view();
                    proof {
                        assert(es0.skip(k).len() == es0.len() - k);
                        assert(0 <= k < es0.len());
                    }
                    let entry = entries.remove(0);
                    proof {
                        assert(entry.deep_view() == dv0[0]);
                        assert(entry.deep_view() == es0[k]);
                        assert forall|j: int| 0 <= j < entries@.len() implies
                            entries.deep_view()[j] == es0.skip(k + 1)[j] by {
                            assert(entries@[j] == raw0[j + 1]);
                            assert(entries.deep_view()[j] == entries@[j].deep_view());
                            assert(raw0[j + 1].deep_view() == dv0[j + 1]);
                            assert(dv0[j + 1] == es0.skip(k)[j + 1]);
                            assert(es0.skip(k)[j + 1] == es0[k + 1 + j]);
                        }
                        assert(entries.deep_view() =~~= es0.skip(k + 1));
                    }
                    let (name, pack) = entry;
                    let handle = Proxy::new(pack);
                    proof {
                        assert(handle.deep_view() =~~= handle_of(pack@));
                        assert((name@, pack@) == es0[k]);
                    }
                    let ghost hraw0 = handles@;
                    let ghost hs0 = handles.deep_view();
                    handles.push((name, handle));
                    proof {
                        let ghost f = |e: (Seq<char>, ProxyView)| (e.0, handle_of(e.1));
                        assert forall|j: int| 0 <= j < handles@.len() implies
                            handles.deep_view()[j] == es0.take(k + 1).map_values(f)[j] by {
                            assert(handles.deep_view()[j] == handles@[j].deep_view());
                            assert(es0.take(k + 1).map_values(f)[j] == f(es0.take(k + 1)[j]));
                            assert(es0.take(k + 1)[j] == es0[j]);
                            if j < k {
                                assert(handles@[j] == hraw0[j]);
                                assert(hraw0[j].deep_view() == hs0[j]);
                                assert(hs0[j] == es0.take(k).map_values(f)[j]);
                                assert(es0.take(k).map_values(f)[j] == f(es0.take(k)[j]));
                                assert(es0.take(k)[j] == es0[j]);
                            } else {
                                assert(handles@[j] == (name, handle));
                                assert(handles@[j].deep_view() == (name@, handle.deep_view()));
                            }
                        }
                        assert(handles.deep_view() =~~= es0.take(k + 1).map_values(f));
                        assert(handles.deep_view() =~~= es0.take(k + 1).map_values(
                            |e: (Seq<char>, ProxyView)| (e.0, handle_of(e.1)),
                        ));
                    }
                }
                proof {
                    assert(es0.take(handles@.len() as int) =~= es0);
                    assert(handles.deep_view() =~~= es0.map_values(
                        |e: (Seq<char>, ProxyView)| (e.0, handle_of(e.1)),
                    ));
                }
                Ok(handles)
            },
        }
    }

    /// The command that asks for the control service's version.
    pub fn version(&self) -> (c: Command)
        ensures
            c@ == CommandView::FetchVersion,
    {
        Command::FetchVersion
    }

    /// Decides a reply to a version query: the response body text.
    pub fn version_result(reply: Reply) -> (r: Result<String, ClientError>)
        ensures
            result_view(r) == version_decision(reply@),
    {
        decode_version(reply)
    }

    /// Starts a fetch of one proxy with a guaranteed clean baseline: the
    /// session clears any pre-existing toxics before handing back the handle.
    pub fn find_proxy(&self, name: &str) -> (r: (FindProxy, Command))
        ensures
            r.0@.name == name@,
            r.0@.state is AwaitFetch,
            crate::session::find_wf(r.0@),
            r.1@ == CommandView::FetchProxy(name@),
    {
        FindProxy::begin(name.to_owned())
    }

    /// Starts a fetch of one proxy that also re-enables it after clearing its
    /// toxics, covering a proxy left disabled by a prior aborted run.
    pub fn find_and_reset_proxy(&self, name: &str) -> (r: (FindAndReset, Command))
        ensures
            r.0@.name == name@,
            crate::session::far_wf(r.0@),
            r.0@.state matches crate::session::FarStateView::Finding(inner) && inner.state
                is AwaitFetch,
            r.1@ == CommandView::FetchProxy(name@),
    {
        FindAndReset::begin(name.to_owned())
    }
}

} // verus!
