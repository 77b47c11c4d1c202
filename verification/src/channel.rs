//! The control-channel wire protocol: the commands the client issues, the
//! verb and path each command travels on, the replies the transport hands
//! back, and the decision taken on each reply.
//!
//! The transport itself (opening the HTTP connection, serializing a record to
//! JSON and back) lives outside the verified crate. It receives a [`Command`],
//! issues it with the verb and path computed here, and hands back a [`Reply`]
//! holding either the transport failure's cause or the response status and
//! decoded payload. Every decision about what a reply means is made here, with
//! a contract that pins it for every possible reply.

use vstd::prelude::*;
use vstd::string::StringExecFns;

use crate::proxy::{ProxyPack, ProxyView};
use crate::toxic::{ToxicPack, ToxicView};

verus! {

/// HTTP verb a command travels on.
#[derive(Clone, Copy, PartialEq, Eq, Structural, Debug)]
pub enum Verb {
    Get,
    Post,
    Delete,
}

/// Mathematical form of a command.
pub enum CommandView {
    Populate(Seq<ProxyView>),
    ResetState,
    ListProxies,
    FetchProxy(Seq<char>),
    SetEnabled(Seq<char>, bool),
    RemoveProxy(Seq<char>),
    ListToxics(Seq<char>),
    AddToxic(Seq<char>, ToxicView),
    RemoveToxic(Seq<char>, Seq<char>),
    FetchVersion,
}

/// One operation against the control service. The payload carried by a
/// variant is the request body; commands without payload send none.
#[derive(Debug)]
pub enum Command {
    /// Replace the whole proxy set with the given configurations.
    Populate(Vec<ProxyPack>),
    /// Re-enable every proxy and clear every active toxic.
    ResetState,
    /// List every proxy with its configuration.
    ListProxies,
    /// Fetch one proxy's configuration by name.
    FetchProxy(String),
    /// Partial update of one proxy: set its enabled flag.
    SetEnabled(String, bool),
    /// Remove one proxy and all its toxics.
    RemoveProxy(String),
    /// List the toxics registered on one proxy.
    ListToxics(String),
    /// Create or replace one toxic on one proxy.
    AddToxic(String, ToxicPack),
    /// Remove one toxic, by proxy name and toxic name.
    RemoveToxic(String, String),
    /// Ask for the control service's version.
    FetchVersion,
}

impl View for Command {
    type V = CommandView;

    open spec fn view(&self) -> CommandView {
        match self {
            Command::Populate(configs) => CommandView::Populate(configs.deep_view()),
            Command::ResetState => CommandView::ResetState,
            Command::ListProxies => CommandView::ListProxies,
            Command::FetchProxy(name) => CommandView::FetchProxy(name@),
            Command::SetEnabled(name, on) => CommandView::SetEnabled(name@, *on),
            Command::RemoveProxy(name) => CommandView::RemoveProxy(name@),
            Command::ListToxics(name) => CommandView::ListToxics(name@),
            Command::AddToxic(name, toxic) => CommandView::AddToxic(name@, toxic@),
            Command::RemoveToxic(name, toxic) => CommandView::RemoveToxic(name@, toxic@),
            Command::FetchVersion => CommandView::FetchVersion,
        }
    }
}

/// The verb each command travels on.
pub open spec fn verb_of(c: CommandView) -> Verb {
    match c {
        CommandView::Populate(_) => Verb::Post,
        CommandView::ResetState => Verb::Post,
        CommandView::ListProxies => Verb::Get,
        CommandView::FetchProxy(_) => Verb::Get,
        CommandView::SetEnabled(_, _) => Verb::Post,
        CommandView::RemoveProxy(_) => Verb::Delete,
        CommandView::ListToxics(_) => Verb::Get,
        CommandView::AddToxic(_, _) => Verb::Post,
        CommandView::RemoveToxic(_, _) => Verb::Delete,
        CommandView::FetchVersion => Verb::Get,
    }
}

/// The path each command travels on. Path segments are joined with `/`
/// throughout; a toxic name is a path segment under its proxy's toxic list.
pub open spec fn path_of(c: CommandView) -> Seq<char> {
    match c {
        CommandView::Populate(_) => "/populate"@,
        CommandView::ResetState => "/reset"@,
        CommandView::ListProxies => "/proxies"@,
        CommandView::FetchProxy(name) => "/proxies/"@ + name,
        CommandView::SetEnabled(name, _) => "/proxies/"@ + name,
        CommandView::RemoveProxy(name) => "/proxies/"@ + name,
        CommandView::ListToxics(name) => "/proxies/"@ + name + "/toxics"@,
        CommandView::AddToxic(name, _) => "/proxies/"@ + name + "/toxics"@,
        CommandView::RemoveToxic(name, toxic) => "/proxies/"@ + name + "/toxics/"@ + toxic,
        CommandView::FetchVersion => "/version"@,
    }
}

impl Command {
    /// The verb this command travels on.
    pub fn verb(&self) -> (v: Verb)
        ensures
            v == verb_of(self@),
    {
        match self {
            Command::Populate(_) => Verb::Post,
            Command::ResetState => Verb::Post,
            Command::ListProxies => Verb::Get,
            Command::FetchProxy(_) => Verb::Get,
            Command::SetEnabled(_, _) => Verb::Post,
            Command::RemoveProxy(_) => Verb::Delete,
            Command::ListToxics(_) => Verb::Get,
            Command::AddToxic(_, _) => Verb::Post,
            Command::RemoveToxic(_, _) => Verb::Delete,
            Command::FetchVersion => Verb::Get,
        }
    }

    /// The path this command travels on.
    pub fn path(&self) -> (p: String)
        ensures
            p@ == path_of(self@),
    {
        match self {
            Command::Populate(_) => String::from_str("/populate"),
            Command::ResetState => String::from_str("/reset"),
            Command::ListProxies => String::from_str("/proxies"),
            Command::FetchProxy(name) => {
                let mut p = String::from_str("/proxies/");
                p.append(name.as_str());
                p
            },
            Command::SetEnabled(name, _) => {
                let mut p = String::from_str("/proxies/");
                p.append(name.as_str());
                p
            },
            Command::RemoveProxy(name) => {
                let mut p = String::from_str("/proxies/");
                p.append(name.as_str());
                p
            },
            Command::ListToxics(name) => {
                let mut p = String::from_str("/proxies/");
                p.append(name.as_str());
                p.append("/toxics");
                p
            },
            Command::AddToxic(name, _) => {
                let mut p = String::from_str("/proxies/");
                p.append(name.as_str());
                p.append("/toxics");
                p
            },
            Command::RemoveToxic(name, toxic) => {
                let mut p = String::from_str("/proxies/");
                p.append(name.as_str());
                p.append("/toxics/");
                p.append(toxic.as_str());
                p
            },
            Command::FetchVersion => String::from_str("/version"),
        }
    }
}

/// Mathematical form of a decoded response payload.
pub enum PayloadView {
    Empty,
    Text(Seq<char>),
    OneProxy(ProxyView),
    ProxyEntries(Seq<(Seq<char>, ProxyView)>),
    PopulatedProxies(Option<Seq<ProxyView>>),
    ToxicEntries(Seq<ToxicView>),
    Undecodable(Seq<char>),
}

/// The body of an HTTP response, decoded into the shape the issued command
/// calls for. `Undecodable` carries the decoder's account of a body that did
/// not have that shape; `PopulatedProxies(None)` stands for a replace-all
/// response without the proxy-list key, which is not an error.
#[derive(Debug)]
pub enum Payload {
    Empty,
    Text(String),
    OneProxy(ProxyPack),
    ProxyEntries(Vec<(String, ProxyPack)>),
    PopulatedProxies(Option<Vec<ProxyPack>>),
    ToxicEntries(Vec<ToxicPack>),
    Undecodable(String),
}

impl View for Payload {
    type V = PayloadView;

    open spec fn view(&self) -> PayloadView {
        match self {
            Payload::Empty => PayloadView::Empty,
            Payload::Text(s) => PayloadView::Text(s@),
            Payload::OneProxy(p) => PayloadView::OneProxy(p@),
            Payload::ProxyEntries(entries) => PayloadView::ProxyEntries(entries.deep_view()),
            Payload::PopulatedProxies(entries) => PayloadView::PopulatedProxies(
                entries.deep_view(),
            ),
            Payload::ToxicEntries(toxics) => PayloadView::ToxicEntries(toxics.deep_view()),
            Payload::Undecodable(cause) => PayloadView::Undecodable(cause@),
        }
    }
}

/// Mathematical form of a reply.
pub enum ReplyView {
    Dropped(Seq<char>),
    Answered { status: u16, payload: PayloadView },
}

/// What the transport hands back for one command: a transport-level failure
/// with its cause, or the response's status and decoded body. A non-2xx
/// status is not itself a transport failure; each decision below says what it
/// means for its command.
#[derive(Debug)]
pub enum Reply {
    Dropped(String),
    Answered { status: u16, payload: Payload },
}

impl View for Reply {
    type V = ReplyView;

    open spec fn view(&self) -> ReplyView {
        match self {
            Reply::Dropped(cause) => ReplyView::Dropped(cause@),
            Reply::Answered { status, payload } => (ReplyView::Answered {
                status: *status,
                payload: payload@,
            }),
        }
    }
}

/// The status codes that report success.
pub open spec fn status_success(status: u16) -> bool {
    200 <= status < 300
}

/// The status code that reports a missing proxy or toxic.
pub open spec fn status_missing(status: u16) -> bool {
    status == 404
}

/// Mathematical form of a client-side failure.
pub enum ClientErrorView {
    Transport(Seq<char>),
    Serialization(Seq<char>),
    Coordination(Seq<char>),
    MissingResource(Seq<char>),
}

/// A failure surfaced to the caller. Nothing is retried; every failure is a
/// value, never an abort.
#[derive(Debug)]
pub enum ClientError {
    /// The transport could not complete the exchange; carries the cause.
    Transport(String),
    /// The response did not have the shape the command calls for.
    Serialization(String),
    /// Exclusive access to the shared channel could not be had.
    Coordination(String),
    /// The service reported that the named proxy or toxic does not exist.
    MissingResource(String),
}

impl View for ClientError {
    type V = ClientErrorView;

    open spec fn view(&self) -> ClientErrorView {
        match self {
            ClientError::Transport(c) => ClientErrorView::Transport(c@),
            ClientError::Serialization(c) => ClientErrorView::Serialization(c@),
            ClientError::Coordination(c) => ClientErrorView::Coordination(c@),
            ClientError::MissingResource(c) => ClientErrorView::MissingResource(c@),
        }
    }
}

impl DeepView for ClientError {
    type V = ClientErrorView;

    open spec fn deep_view(&self) -> ClientErrorView {
        self.view()
    }
}

/// Human-readable account of a failure.
pub open spec fn error_text(e: ClientErrorView) -> Seq<char> {
    match e {
        ClientErrorView::Transport(c) => "transport failure: "@ + c,
        ClientErrorView::Serialization(c) => "bad response: "@ + c,
        ClientErrorView::Coordination(c) => "channel lock failed: "@ + c,
        ClientErrorView::MissingResource(c) => "not found: "@ + c,
    }
}

impl ClientError {
    /// Renders the failure for display.
    pub fn describe(&self) -> (r: String)
        ensures
            r@ == error_text(self@),
    {
        match self {
            ClientError::Transport(c) => {
                let mut r = String::from_str("transport failure: ");
                r.append(c.as_str());
                r
            },
            ClientError::Serialization(c) => {
                let mut r = String::from_str("bad response: ");
                r.append(c.as_str());
                r
            },
            ClientError::Coordination(c) => {
                let mut r = String::from_str("channel lock failed: ");
                r.append(c.as_str());
                r
            },
            ClientError::MissingResource(c) => {
                let mut r = String::from_str("not found: ");
                r.append(c.as_str());
                r
            },
        }
    }
}

/// A result with both sides taken to their mathematical form.
pub open spec fn result_view<T: DeepView, E: DeepView>(r: Result<T, E>) -> Result<T::V, E::V> {
    match r {
        Ok(t) => Ok(t.deep_view()),
        Err(e) => Err(e.deep_view()),
    }
}

/// What a fire-and-forget command's reply means: a transport failure is the
/// only failure; any answered status is acknowledgement, as the caller has
/// nothing to read from the body.
pub open spec fn ack_decision(r: ReplyView) -> Result<(), ClientErrorView> {
    match r {
        ReplyView::Dropped(cause) => Err(ClientErrorView::Transport(cause)),
        ReplyView::Answered { .. } => Ok(()),
    }
}

/// Decides a reply to a fire-and-forget command (enable, disable, remove,
/// reset, add or remove a toxic).
pub fn decode_ack(reply: Reply) -> (r: Result<(), ClientError>)
    ensures
        result_view(r) == ack_decision(reply@),
{
    match reply {
        Reply::Dropped(cause) => Err(ClientError::Transport(cause)),
        Reply::Answered { .. } => Ok(()),
    }
}

/// What a reply to a fetch of one named resource means: a missing status is a
/// missing resource; any other non-success status, or a body of the wrong
/// shape, is a serialization failure.
pub open spec fn fetch_decision(name: Seq<char>, r: ReplyView) -> Result<
    ProxyView,
    ClientErrorView,
> {
    match r {
        ReplyView::Dropped(cause) => Err(ClientErrorView::Transport(cause)),
        ReplyView::Answered { status, payload } => {
            if status_missing(status) {
                Err(ClientErrorView::MissingResource(name))
            } else if !status_success(status) {
                Err(ClientErrorView::Serialization("unexpected response status"@))
            } else {
                match payload {
                    PayloadView::OneProxy(p) => Ok(p),
                    PayloadView::Undecodable(cause) => Err(ClientErrorView::Serialization(cause)),
                    _ => Err(ClientErrorView::Serialization("unexpected response payload"@)),
                }
            }
        },
    }
}

/// Decides a reply to a fetch of the proxy called `name`.
pub fn decode_proxy(name: &String, reply: Reply) -> (r: Result<ProxyPack, ClientError>)
    ensures
        result_view(r) == fetch_decision(name@, reply@),
{
    match reply {
        Reply::Dropped(cause) => Err(ClientError::Transport(cause)),
        Reply::Answered { status, payload } => {
            if status == 404 {
                Err(ClientError::MissingResource(name.clone()))
            } else if !(200 <= status && status < 300) {
                Err(ClientError::Serialization(String::from_str("unexpected response status")))
            } else {
                match payload {
                    Payload::OneProxy(p) => Ok(p),
                    Payload::Undecodable(cause) => Err(ClientError::Serialization(cause)),
                    _ => Err(
                        ClientError::Serialization(
                            String::from_str("unexpected response payload"),
                        ),
                    ),
                }
            }
        },
    }
}

/// What a reply to a toxic listing means.
pub open spec fn toxics_decision(name: Seq<char>, r: ReplyView) -> Result<
    Seq<ToxicView>,
    ClientErrorView,
> {
    match r {
        ReplyView::Dropped(cause) => Err(ClientErrorView::Transport(cause)),
        ReplyView::Answered { status, payload } => {
            if status_missing(status) {
                Err(ClientErrorView::MissingResource(name))
            } else if !status_success(status) {
                Err(ClientErrorView::Serialization("unexpected response status"@))
            } else {
                match payload {
                    PayloadView::ToxicEntries(toxics) => Ok(toxics),
                    PayloadView::Undecodable(cause) => Err(ClientErrorView::Serialization(cause)),
                    _ => Err(ClientErrorView::Serialization("unexpected response payload"@)),
                }
            }
        },
    }
}

/// Decides a reply to a toxic listing on the proxy called `name`.
pub fn decode_toxic_list(name: &String, reply: Reply) -> (r: Result<Vec<ToxicPack>, ClientError>)
    ensures
        result_view(r) == toxics_decision(name@, reply@),
{
    match reply {
        Reply::Dropped(cause) => Err(ClientError::Transport(cause)),
        Reply::Answered { status, payload } => {
            if status == 404 {
                Err(ClientError::MissingResource(name.clone()))
            } else if !(200 <= status && status < 300) {
                Err(ClientError::Serialization(String::from_str("unexpected response status")))
            } else {
                match payload {
                    Payload::ToxicEntries(toxics) => Ok(toxics),
                    Payload::Undecodable(cause) => Err(ClientError::Serialization(cause)),
                    _ => Err(
                        ClientError::Serialization(
                            String::from_str("unexpected response payload"),
                        ),
                    ),
                }
            }
        },
    }
}

/// What a reply to a listing of every proxy means.
pub open spec fn table_decision(r: ReplyView) -> Result<
    Seq<(Seq<char>, ProxyView)>,
    ClientErrorView,
> {
    match r {
        ReplyView::Dropped(cause) => Err(ClientErrorView::Transport(cause)),
        ReplyView::Answered { status, payload } => {
            if !status_success(status) {
                Err(ClientErrorView::Serialization("unexpected response status"@))
            } else {
                match payload {
                    PayloadView::ProxyEntries(entries) => Ok(entries),
                    PayloadView::Undecodable(cause) => Err(ClientErrorView::Serialization(cause)),
                    _ => Err(ClientErrorView::Serialization("unexpected response payload"@)),
                }
            }
        },
    }
}

/// Decides a reply to a listing of every proxy.
pub fn decode_proxy_table(reply: Reply) -> (r: Result<Vec<(String, ProxyPack)>, ClientError>)
    ensures
        result_view(r) == table_decision(reply@),
{
    match reply {
        Reply::Dropped(cause) => Err(ClientError::Transport(cause)),
        Reply::Answered { status, payload } => {
            if !(200 <= status && status < 300) {
                Err(ClientError::Serialization(String::from_str("unexpected response status")))
            } else {
                match payload {
                    Payload::ProxyEntries(entries) => Ok(entries),
                    Payload::Undecodable(cause) => Err(ClientError::Serialization(cause)),
                    _ => Err(
                        ClientError::Serialization(
                            String::from_str("unexpected response payload"),
                        ),
                    ),
                }
            }
        },
    }
}

/// What a reply to a replace-all means: the resulting configurations, with a
/// missing proxy-list key standing for an empty result, not an error.
pub open spec fn populate_decision(r: ReplyView) -> Result<Seq<ProxyView>, ClientErrorView> {
    match r {
        ReplyView::Dropped(cause) => Err(ClientErrorView::Transport(cause)),
        ReplyView::Answered { status, payload } => {
            if !status_success(status) {
                Err(ClientErrorView::Serialization("unexpected response status"@))
            } else {
                match payload {
                    PayloadView::PopulatedProxies(Some(configs)) => Ok(configs),
                    PayloadView::PopulatedProxies(None) => Ok(Seq::empty()),
                    PayloadView::Undecodable(cause) => Err(ClientErrorView::Serialization(cause)),
                    _ => Err(ClientErrorView::Serialization("unexpected response payload"@)),
                }
            }
        },
    }
}

/// Decides a reply to a replace-all of the proxy set.
pub fn decode_populated(reply: Reply) -> (r: Result<Vec<ProxyPack>, ClientError>)
    ensures
        result_view(r) == populate_decision(reply@),
{
    match reply {
        Reply::Dropped(cause) => Err(ClientError::Transport(cause)),
        Reply::Answered { status, payload } => {
            if !(200 <= status && status < 300) {
                Err(ClientError::Serialization(String::from_str("unexpected response status")))
            } else {
                match payload {
                    Payload::PopulatedProxies(Some(configs)) => Ok(configs),
                    Payload::PopulatedProxies(None) => {
                        let configs: Vec<ProxyPack> = Vec::new();
                        proof {
                            assert(configs.deep_view() =~= Seq::<ProxyView>::empty());
                        }
                        Ok(configs)
                    },
                    Payload::Undecodable(cause) => Err(ClientError::Serialization(cause)),
                    _ => Err(
                        ClientError::Serialization(
                            String::from_str("unexpected response payload"),
                        ),
                    ),
                }
            }
        },
    }
}

/// What a reply to a version query means: the response body text is read
/// through whatever the status, as the caller only wants the text.
pub open spec fn version_decision(r: ReplyView) -> Result<Seq<char>, ClientErrorView> {
    match r {
        ReplyView::Dropped(cause) => Err(ClientErrorView::Transport(cause)),
        ReplyView::Answered { status, payload } => {
            match payload {
                PayloadView::Text(body) => Ok(body),
                PayloadView::Undecodable(cause) => Err(ClientErrorView::Serialization(cause)),
                _ => Err(ClientErrorView::Serialization("unexpected response payload"@)),
            }
        },
    }
}

/// Decides a reply to a version query.
pub fn decode_version(reply: Reply) -> (r: Result<String, ClientError>)
    ensures
        result_view(r) == version_decision(reply@),
{
    match reply {
        Reply::Dropped(cause) => Err(ClientError::Transport(cause)),
        Reply::Answered { status: _, payload } => {
            match payload {
                Payload::Text(body) => Ok(body),
                Payload::Undecodable(cause) => Err(ClientError::Serialization(cause)),
                _ => Err(
                    ClientError::Serialization(String::from_str("unexpected response payload")),
                ),
            }
        },
    }
}

/// Client-side face of the control channel: the service's base address. The
/// connection itself, and the mutual exclusion that serializes concurrent
/// callers onto it, live with the transport outside this crate.
#[derive(Debug)]
pub struct HttpClient {
    pub base_uri: String,
}

impl HttpClient {
    /// A channel face bound to a base address such as `http://host:port`.
    pub fn new(base_uri: String) -> (r: HttpClient)
        ensures
            r.base_uri@ == base_uri@,
    {
        HttpClient { base_uri }
    }

    /// The full request target for a command path.
    pub fn uri_with_path(&self, path: &str) -> (r: String)
        ensures
            r@ == self.base_uri@ + path@,
    {
        let mut r = self.base_uri.clone();
        r.append(path);
        r
    }
}

} // verus!
