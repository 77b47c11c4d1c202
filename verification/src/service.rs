//! An in-memory control service: an executable counterpart of the
//! conformance model, proved to answer every command exactly as the model
//! prescribes and to move to exactly the state the model prescribes. Tests
//! drive the client's sessions against it with no network in between.

use vstd::prelude::*;

use crate::channel::{Command, Payload, Reply};
use crate::conformance::{
    apply_command, has_proxy, lemma_proxy_at_unique, lemma_remove_first_absent,
    lemma_remove_first_at, lemma_upsert_all_snoc, put_toxic, remove_first_toxic, remove_named,
    reply_to, reset_all, set_enabled, upsert, upsert_all, wf_server, ServerView,
};
use crate::proxy::{duplicate_all, ProxyPack, ProxyView};
use crate::toxic::{ToxicPack, ToxicView};

verus! {

/// The position of the first toxic carrying `name`, if any.
fn toxic_index(toxics: &Vec<ToxicPack>, name: &String) -> (r: Option<usize>)
    ensures
        match r {
            Some(j) => {
                &&& j < toxics@.len()
                &&& toxics.deep_view()[j as int].name == name@
                &&& forall|k: int|
                    0 <= k < j ==> (#[trigger] toxics.deep_view()[k]).name != name@
            },
            None => forall|k: int|
                0 <= k < toxics.deep_view().len() ==> (#[trigger] toxics.deep_view()[k]).name
                    != name@,
        },
{
    let mut j: usize = 0;
    while j < toxics.len()
        invariant
            j <= toxics@.len(),
            forall|k: int| 0 <= k < j ==> (#[trigger] toxics.deep_view()[k]).name != name@,
        decreases toxics@.len() - j,
    {
        if toxics[j].name.eq(name) {
            proof {
                assert(toxics.deep_view()[j as int] == toxics@[j as int].deep_view());
            }
            return Some(j);
        }
        proof {
            assert(toxics.deep_view()[j as int] == toxics@[j as int].deep_view());
        }
        j = j + 1;
    }
    None
}

/// The toxic list with a toxic created, or replaced when one of the same
/// name is already registered; matches the model's create-or-replace.
fn put_toxic_vec(toxics: Vec<ToxicPack>, toxic: ToxicPack) -> (r: Vec<ToxicPack>)
    ensures
        r.deep_view() == put_toxic(toxics.deep_view(), toxic@),
{
    let ghost dv0 = toxics.deep_view();
    let mut out = toxics;
    match toxic_index(&out, &toxic.name) {
        Some(j) => {
            let ghost raw0 = out@;
            let _removed = out.remove(j);
            proof {
                assert forall|k: int| 0 <= k < out@.len() implies out.deep_view()[k]
                    == dv0.remove(j as int)[k] by {
                    assert(out.deep_view()[k] == out@[k].deep_view());
                    if k < j {
                        assert(out@[k] == raw0[k]);
                        assert(raw0[k].deep_view() == dv0[k]);
                    } else {
                        assert(out@[k] == raw0[k + 1]);
                        assert(raw0[k + 1].deep_view() == dv0[k + 1]);
                    }
                }
                assert(out.deep_view() =~~= dv0.remove(j as int));
                lemma_remove_first_at(dv0, toxic@.name, j as int);
            }
            let ghost mid = out.deep_view();
            let ghost raw1 = out@;
            out.push(toxic);
            proof {
                assert forall|k: int| 0 <= k < out@.len() implies out.deep_view()[k]
                    == mid.push(toxic@)[k] by {
                    assert(out.deep_view()[k] == out@[k].deep_view());
                    if k < raw1.len() {
                        assert(out@[k] == raw1[k]);
                        assert(raw1[k].deep_view() == mid[k]);
                    }
                }
                assert(out.deep_view() =~~= mid.push(toxic@));
                assert(out.deep_view() =~~= put_toxic(dv0, toxic@));
            }
            out
        },
        None => {
            let ghost raw1 = out@;
            out.push(toxic);
            proof {
                lemma_remove_first_absent(dv0, toxic@.name);
                assert forall|k: int| 0 <= k < out@.len() implies out.deep_view()[k]
                    == dv0.push(toxic@)[k] by {
                    assert(out.deep_view()[k] == out@[k].deep_view());
                    if k < raw1.len() {
                        assert(out@[k] == raw1[k]);
                        assert(raw1[k].deep_view() == dv0[k]);
                    }
                }
                assert(out.deep_view() =~~= dv0.push(toxic@));
                assert(out.deep_view() =~~= put_toxic(dv0, toxic@));
            }
            out
        },
    }
}

/// The toxic list without the first toxic carrying `name`; matches the
/// model's removal.
fn remove_toxic_vec(toxics: Vec<ToxicPack>, name: &String) -> (r: Vec<ToxicPack>)
    ensures
        r.deep_view() == remove_first_toxic(toxics.deep_view(), name@),
{
    let ghost dv0 = toxics.deep_view();
    let mut out = toxics;
    match toxic_index(&out, name) {
        Some(j) => {
            let ghost raw0 = out@;
            let _removed = out.remove(j);
            proof {
                assert forall|k: int| 0 <= k < out@.len() implies out.deep_view()[k]
                    == dv0.remove(j as int)[k] by {
                    assert(out.deep_view()[k] == out@[k].deep_view());
                    if k < j {
                        assert(out@[k] == raw0[k]);
                        assert(raw0[k].deep_view() == dv0[k]);
                    } else {
                        assert(out@[k] == raw0[k + 1]);
                        assert(raw0[k + 1].deep_view() == dv0[k + 1]);
                    }
                }
                assert(out.deep_view() =~~= dv0.remove(j as int));
                lemma_remove_first_at(dv0, name@, j as int);
                assert(out.deep_view() =~~= remove_first_toxic(dv0, name@));
            }
            out
        },
        None => {
            proof {
                lemma_remove_first_absent(dv0, name@);
            }
            out
        },
    }
}

/// An in-memory conforming control service, with the registered proxies and
/// the version text it reports.
pub struct InMemoryService {
    pub proxies: Vec<ProxyPack>,
    pub version: String,
}

impl View for InMemoryService {
    type V = ServerView;

    open spec fn view(&self) -> ServerView {
        ServerView { proxies: self.proxies.deep_view(), version: self.version@ }
    }
}

impl InMemoryService {
    /// A fresh service with no proxies.
    pub fn new(version: String) -> (r: InMemoryService)
        ensures
            r@.proxies =~= Seq::<ProxyView>::empty(),
            r@.version == version@,
            wf_server(r@),
    {
        let proxies: Vec<ProxyPack> = Vec::new();
        InMemoryService { proxies, version }
    }

    /// The position of the proxy carrying `name`, if any.
    fn find_index(&self, name: &String) -> (r: Option<usize>)
        ensures
            match r {
                Some(i) => {
                    &&& i < self.proxies@.len()
                    &&& self@.proxies[i as int].name == name@
                    &&& has_proxy(self@.proxies, name@)
                },
                None => !has_proxy(self@.proxies, name@),
            },
    {
        let mut i: usize = 0;
        while i < self.proxies.len()
            invariant
                i <= self.proxies@.len(),
                forall|j: int| 0 <= j < i ==> (#[trigger] self@.proxies[j]).name != name@,
            decreases self.proxies@.len() - i,
        {
            if self.proxies[i].name.eq(name) {
                proof {
                    assert(self@.proxies[i as int] == self.proxies@[i as int].deep_view());
                }
                return Some(i);
            }
            proof {
                assert(self@.proxies[i as int] == self.proxies@[i as int].deep_view());
            }
            i = i + 1;
        }
        proof {
            if has_proxy(self@.proxies, name@) {
                let w = choose|k: int|
                    0 <= k < self@.proxies.len() && self@.proxies[k].name == name@;
                assert(self@.proxies[w].name != name@);
                assert(false);
            }
        }
        None
    }

    /// Creates or replaces one configuration by name; matches the model's
    /// create-or-replace.
    fn upsert_one(&mut self, cfg: ProxyPack)
        requires
            wf_server(old(self)@),
        ensures
            final(self)@.proxies == upsert(old(self)@.proxies, cfg@),
            final(self)@.version == old(self)@.version,
            wf_server(final(self)@),
    {
        let ghost orig = self@.proxies;
        match self.find_index(&cfg.name) {
            Some(i) => {
                self.proxies.set(i, cfg);
                proof {
                    assert forall|j: int| 0 <= j < self@.proxies.len() implies self@.proxies[j]
                        == upsert(orig, cfg@)[j] by {
                        assert(self@.proxies[j] == self.proxies@[j].deep_view());
                        if j == i {
                        } else {
                            assert(self.proxies@[j].deep_view() == orig[j]);
                            if orig[j].name == cfg@.name {
                                assert(orig[i as int].name == cfg@.name);
                                assert(false);
                            }
                        }
                    }
                    assert(self@.proxies =~~= upsert(orig, cfg@));
                    assert forall|a: int, b: int|
                        0 <= a < b < self@.proxies.len() implies self@.proxies[a].name
                        != self@.proxies[b].name by {
                        assert(self@.proxies[a].name == orig[a].name);
                        assert(self@.proxies[b].name == orig[b].name);
                    }
                }
            },
            None => {
                let ghost cfgv = cfg@;
                self.proxies.push(cfg);
                proof {
                    assert forall|j: int| 0 <= j < self@.proxies.len() implies self@.proxies[j]
                        == orig.push(cfgv)[j] by {
                        assert(self@.proxies[j] == self.proxies@[j].deep_view());
                        if j < orig.len() {
                            assert(self.proxies@[j].deep_view() == orig[j]);
                        }
                    }
                    assert(self@.proxies =~~= orig.push(cfgv));
                    assert(self@.proxies =~~= upsert(orig, cfgv));
                    assert forall|a: int, b: int|
                        0 <= a < b < self@.proxies.len() implies self@.proxies[a].name
                        != self@.proxies[b].name by {
                        if b < orig.len() {
                        } else {
                            assert(self@.proxies[b] == cfgv);
                            assert(self@.proxies[a] == orig[a]);
                            assert(!has_proxy(orig, cfgv.name));
                        }
                    }
                }
            },
        }
    }

    /// Answers one command exactly as a conforming service does, moving to
    /// exactly the state the model prescribes.
    pub fn handle(&mut self, cmd: &Command) -> (r: Reply)
        requires
            wf_server(old(self)@),
        ensures
            final(self)@ == apply_command(old(self)@, cmd@),
            r@ == reply_to(old(self)@, cmd@),
            wf_server(final(self)@),
    {
        let ghost pre = self@;
        match cmd {
            Command::Populate(cfgs) => {
                let echo = duplicate_all(cfgs);
                let mut incoming = duplicate_all(cfgs);
                let ghost cf0 = cfgs.deep_view();
                let ghost orig = self@.proxies;
                while incoming.len() > 0
                    invariant
                        wf_server(self@),
                        self@.version == pre.version,
                        incoming.deep_view().len() <= cf0.len(),
                        incoming.deep_view() == cf0.skip(cf0.len() - incoming.deep_view().len()),
                        self@.proxies == upsert_all(
                            orig,
                            cf0.take(cf0.len() - incoming.deep_view().len()),
                        ),
                    decreases incoming@.len(),
                {
                    let ghost k = cf0.len() - incoming.deep_view().len();
                    let ghost raw0 = incoming@;
                    let ghost dv0 = incoming.deep_view();
                    proof {
                        assert(dv0.len() == raw0.len());
                        assert(cf0.skip(k).len() == cf0.len() - k);
                    }
                    let cfg = incoming.remove(0);
                    proof {
                        assert(cfg.deep_view() == dv0[0]);
                        assert(cfg@ == cf0[k]);
                        assert forall|j: int| 0 <= j < incoming@.len() implies
                            incoming.deep_view()[j] == cf0.skip(k + 1)[j] by {
                            assert(incoming@[j] == raw0[j + 1]);
                            assert(incoming.deep_view()[j] == incoming@[j].deep_view());
                            assert(raw0[j + 1].deep_view() == dv0[j + 1]);
                            assert(dv0[j + 1] == cf0.skip(k)[j + 1]);
                            assert(cf0.skip(k)[j + 1] == cf0[k + 1 + j]);
                        }
                        assert(incoming.deep_view() =~~= cf0.skip(k + 1));
                    }
                    let ghost mid = self@.proxies;
                    self.upsert_one(cfg);
                    proof {
                        lemma_upsert_all_snoc(orig, cf0.take(k), cf0[k]);
                        assert(cf0.take(k).push(cf0[k]) =~= cf0.take(k + 1));
                        assert(self@.proxies == upsert_all(orig, cf0.take(k + 1)));
                    }
                }
                proof {
                    assert(cf0.take(cf0.len() as int) =~= cf0);
                    assert(self@.proxies == upsert_all(orig, cf0));
                    assert(self@ =~~= apply_command(pre, cmd@));
                }
                Reply::Answered {
                    status: 201,
                    payload: Payload::PopulatedProxies(Some(echo)),
                }
            },
            Command::ResetState => {
                let ghost orig = self@.proxies;
                let mut out: Vec<ProxyPack> = Vec::new();
                while self.proxies.len() > 0
                    invariant
                        out@.len() + self.proxies@.len() == orig.len(),
                        self.proxies.deep_view() == orig.skip(out@.len() as int),
                        out.deep_view() == reset_all(orig).take(out@.len() as int),
                        self@.version == pre.version,
                    decreases self.proxies@.len(),
                {
                    let ghost k = out@.len() as int;
                    let ghost rawp = self.proxies@;
                    let ghost dvp = self.proxies.deep_view();
                    proof {
                        assert(dvp.len() == rawp.len());
                        assert(orig.skip(k).len() == orig.len() - k);
                    }
                    let mut p = self.proxies.remove(0);
                    proof {
                        assert(p.deep_view() == dvp[0]);
                        assert(p@ == orig[k]);
                        assert forall|j: int| 0 <= j < self.proxies@.len() implies
                            self.proxies.deep_view()[j] == orig.skip(k + 1)[j] by {
                            assert(self.proxies@[j] == rawp[j + 1]);
                            assert(self.proxies.deep_view()[j] == self.proxies@[j].deep_view());
                            assert(rawp[j + 1].deep_view() == dvp[j + 1]);
                            assert(dvp[j + 1] == orig.skip(k)[j + 1]);
                            assert(orig.skip(k)[j + 1] == orig[k + 1 + j]);
                        }
                        assert(self.proxies.deep_view() =~~= orig.skip(k + 1));
                    }
                    p.enabled = true;
                    p.toxics = Vec::new();
                    proof {
                        assert(p@ =~~= reset_all(orig)[k]);
                    }
                    let ghost rawo = out@;
                    let ghost dvo = out.deep_view();
                    out.push(p);
                    proof {
                        assert forall|j: int| 0 <= j < out@.len() implies out.deep_view()[j]
                            == reset_all(orig).take(k + 1)[j] by {
                            assert(out.deep_view()[j] == out@[j].deep_view());
                            if j < k {
                                assert(out@[j] == rawo[j]);
                                assert(rawo[j].deep_view() == dvo[j]);
                                assert(dvo[j] == reset_all(orig).take(k)[j]);
                            }
                        }
                        assert(out.deep_view() =~~= reset_all(orig).take(k + 1));
                    }
                }
                self.proxies = out;
                proof {
                    assert(reset_all(orig).take(orig.len() as int) =~= reset_all(orig));
                    assert(self@.proxies == reset_all(orig));
                    assert(self@ =~~= apply_command(pre, cmd@));
                    assert forall|a: int, b: int|
                        0 <= a < b < self@.proxies.len() implies self@.proxies[a].name
                        != self@.proxies[b].name by {
                        assert(self@.proxies[a].name == orig[a].name);
                        assert(self@.proxies[b].name == orig[b].name);
                    }
                }
                Reply::Answered { status: 204, payload: Payload::Empty }
            },
            Command::ListProxies => {
                let ghost orig = self@.proxies;
                let ghost tbl = Seq::new(orig.len(), |i: int| (orig[i].name, orig[i]));
                let mut entries: Vec<(String, ProxyPack)> = Vec::new();
                let mut i: usize = 0;
                while i < self.proxies.len()
                    invariant
                        self@.proxies == orig,
                        i <= orig.len(),
                        tbl == Seq::new(orig.len(), |j: int| (orig[j].name, orig[j])),
                        entries.deep_view() == tbl.take(i as int),
                    decreases orig.len() - i,
                {
                    let ghost k = i as int;
                    let ghost rawo = entries@;
                    let ghost dvo = entries.deep_view();
                    proof {
                        assert(self.proxies.deep_view().len() == self.proxies@.len());
                        assert(tbl.len() == orig.len());
                        assert(0 <= k < orig.len());
                        assert(dvo.len() == k);
                        assert(rawo.len() == k);
                    }
                    let name = self.proxies[i].name.clone();
                    let pack = self.proxies[i].duplicate();
                    proof {
                        assert(pack.deep_view() == orig[k]);
                        assert(name@ == orig[k].name);
                        assert((name, pack).deep_view() == tbl[k]);
                    }
                    entries.push((name, pack));
                    proof {
                        assert forall|j: int| 0 <= j < entries@.len() implies
                            entries.deep_view()[j] == tbl.take(k + 1)[j] by {
                            assert(entries.deep_view()[j] == entries@[j].deep_view());
                            if j < k {
                                assert(entries@[j] == rawo[j]);
                                assert(rawo[j].deep_view() == dvo[j]);
                                assert(dvo[j] == tbl.take(k)[j]);
                            }
                        }
                        assert(entries.deep_view() =~~= tbl.take(k + 1));
                    }
                    i = i + 1;
                }
                proof {
                    assert(tbl.take(orig.len() as int) =~= tbl);
                    assert(entries.deep_view() =~~= tbl);
                }
                Reply::Answered { status: 200, payload: Payload::ProxyEntries(entries) }
            },
            Command::FetchProxy(name) => {
                match self.find_index(name) {
                    Some(i) => {
                        let pack = self.proxies[i].duplicate();
                        proof {
                            lemma_proxy_at_unique(pre.proxies, name@, i as int);
                        }
                        Reply::Answered { status: 200, payload: Payload::OneProxy(pack) }
                    },
                    None => Reply::Answered { status: 404, payload: Payload::Empty },
                }
            },
            Command::SetEnabled(name, on) => {
                let ghost orig = self@.proxies;
                match self.find_index(name) {
                    Some(i) => {
                        let mut p = self.proxies[i].duplicate();
                        p.enabled = *on;
                        self.proxies.set(i, p);
                        proof {
                            assert forall|j: int| 0 <= j < self@.proxies.len() implies
                                self@.proxies[j] == set_enabled(orig, name@, *on)[j] by {
                                assert(self@.proxies[j] == self.proxies@[j].deep_view());
                                if j == i {
                                } else {
                                    assert(self.proxies@[j].deep_view() == orig[j]);
                                    if orig[j].name == name@ {
                                        assert(orig[i as int].name == name@);
                                        assert(false);
                                    }
                                }
                            }
                            assert(self@.proxies =~~= set_enabled(orig, name@, *on));
                            assert(self@ =~~= apply_command(pre, cmd@));
                            assert forall|a: int, b: int|
                                0 <= a < b < self@.proxies.len() implies self@.proxies[a].name
                                != self@.proxies[b].name by {
                                assert(self@.proxies[a].name == orig[a].name);
                                assert(self@.proxies[b].name == orig[b].name);
                            }
                        }
                        Reply::Answered { status: 200, payload: Payload::Empty }
                    },
                    None => {
                        proof {
                            assert forall|j: int| 0 <= j < orig.len() implies
                                set_enabled(orig, name@, *on)[j] == orig[j] by {}
                            assert(set_enabled(orig, name@, *on) =~~= orig);
                            assert(self@ =~~= apply_command(pre, cmd@));
                        }
                        Reply::Answered { status: 404, payload: Payload::Empty }
                    },
                }
            },
            Command::RemoveProxy(name) => {
                let ghost orig = self@.proxies;
                match self.find_index(name) {
                    Some(i) => {
                        let ghost raw0 = self.proxies@;
                        let _removed = self.proxies.remove(i);
                        proof {
                            assert forall|j: int| 0 <= j < self@.proxies.len() implies
                                self@.proxies[j] == orig.remove(i as int)[j] by {
                                assert(self@.proxies[j] == self.proxies@[j].deep_view());
                                if j < i {
                                    assert(self.proxies@[j] == raw0[j]);
                                    assert(raw0[j].deep_view() == orig[j]);
                                } else {
                                    assert(self.proxies@[j] == raw0[j + 1]);
                                    assert(raw0[j + 1].deep_view() == orig[j + 1]);
                                }
                            }
                            assert(self@.proxies =~~= orig.remove(i as int));
                            let c = choose|k: int| 0 <= k < orig.len() && orig[k].name == name@;
                            assert(0 <= c < orig.len() && orig[c].name == name@);
                            if c < i {
                                assert(orig[c].name != orig[i as int].name);
                                assert(false);
                            } else if i < c {
                                assert(orig[i as int].name != orig[c].name);
                                assert(false);
                            }
                            assert(self@.proxies =~~= remove_named(orig, name@));
                            assert(self@ =~~= apply_command(pre, cmd@));
                            assert forall|a: int, b: int|
                                0 <= a < b < self@.proxies.len() implies self@.proxies[a].name
                                != self@.proxies[b].name by {
                                let a2: int = if a < i { a } else { a + 1 };
                                let b2: int = if b < i { b } else { b + 1 };
                                assert(self@.proxies[a] == orig[a2]);
                                assert(self@.proxies[b] == orig[b2]);
                                assert(0 <= a2 < b2 < orig.len());
                            }
                        }
                        Reply::Answered { status: 204, payload: Payload::Empty }
                    },
                    None => Reply::Answered { status: 404, payload: Payload::Empty },
                }
            },
            Command::ListToxics(name) => {
                match self.find_index(name) {
                    Some(i) => {
                        let pack = self.proxies[i].duplicate();
                        proof {
                            lemma_proxy_at_unique(pre.proxies, name@, i as int);
                        }
                        Reply::Answered {
                            status: 200,
                            payload: Payload::ToxicEntries(pack.toxics),
                        }
                    },
                    None => Reply::Answered { status: 404, payload: Payload::Empty },
                }
            },
            Command::AddToxic(name, toxic) => {
                let ghost orig = self@.proxies;
                match self.find_index(name) {
                    Some(i) => {
                        let p = self.proxies[i].duplicate();
                        let ProxyPack { name: pname, listen, upstream, enabled, toxics } = p;
                        let new_toxics = put_toxic_vec(toxics, toxic.duplicate());
                        let p2 = ProxyPack {
                            name: pname,
                            listen,
                            upstream,
                            enabled,
                            toxics: new_toxics,
                        };
                        proof {
                            assert(p2@ =~~= (ProxyView {
                                toxics: put_toxic(orig[i as int].toxics, toxic@),
                                ..orig[i as int]
                            }));
                        }
                        self.proxies.set(i, p2);
                        proof {
                            let f = |ts: Seq<ToxicView>| put_toxic(ts, toxic@);
                            assert forall|j: int| 0 <= j < self@.proxies.len() implies
                                self@.proxies[j] == crate::conformance::map_toxics(
                                orig,
                                name@,
                                f,
                            )[j] by {
                                assert(self@.proxies[j] == self.proxies@[j].deep_view());
                                if j == i {
                                } else {
                                    assert(self.proxies@[j].deep_view() == orig[j]);
                                    if orig[j].name == name@ {
                                        assert(orig[i as int].name == name@);
                                        assert(false);
                                    }
                                }
                            }
                            assert(self@.proxies =~~= crate::conformance::map_toxics(
                                orig,
                                name@,
                                f,
                            ));
                            assert(self@ =~~= apply_command(pre, cmd@));
                            assert forall|a: int, b: int|
                                0 <= a < b < self@.proxies.len() implies self@.proxies[a].name
                                != self@.proxies[b].name by {
                                assert(self@.proxies[a].name == orig[a].name);
                                assert(self@.proxies[b].name == orig[b].name);
                            }
                        }
                        Reply::Answered { status: 200, payload: Payload::Empty }
                    },
                    None => {
                        proof {
                            let f = |ts: Seq<ToxicView>| put_toxic(ts, toxic@);
                            assert forall|j: int| 0 <= j < orig.len() implies
                                crate::conformance::map_toxics(orig, name@, f)[j] == orig[j] by {}
                            assert(crate::conformance::map_toxics(orig, name@, f) =~~= orig);
                            assert(self@ =~~= apply_command(pre, cmd@));
                        }
                        Reply::Answered { status: 404, payload: Payload::Empty }
                    },
                }
            },
            Command::RemoveToxic(name, toxic_name) => {
                let ghost orig = self@.proxies;
                match self.find_index(name) {
                    Some(i) => {
                        let p = self.proxies[i].duplicate();
                        let ProxyPack { name: pname, listen, upstream, enabled, toxics } = p;
                        let new_toxics = remove_toxic_vec(toxics, toxic_name);
                        let p2 = ProxyPack {
                            name: pname,
                            listen,
                            upstream,
                            enabled,
                            toxics: new_toxics,
                        };
                        proof {
                            assert(p2@ =~~= (ProxyView {
                                toxics: remove_first_toxic(orig[i as int].toxics, toxic_name@),
                                ..orig[i as int]
                            }));
                        }
                        self.proxies.set(i, p2);
                        proof {
                            let f = |ts: Seq<ToxicView>| remove_first_toxic(ts, toxic_name@);
                            assert forall|j: int| 0 <= j < self@.proxies.len() implies
                                self@.proxies[j] == crate::conformance::map_toxics(
                                orig,
                                name@,
                                f,
                            )[j] by {
                                assert(self@.proxies[j] == self.proxies@[j].deep_view());
                                if j == i {
                                } else {
                                    assert(self.proxies@[j].deep_view() == orig[j]);
                                    if orig[j].name == name@ {
                                        assert(orig[i as int].name == name@);
                                        assert(false);
                                    }
                                }
                            }
                            assert(self@.proxies =~~= crate::conformance::map_toxics(
                                orig,
                                name@,
                                f,
                            ));
                            assert(self@ =~~= apply_command(pre, cmd@));
                            assert forall|a: int, b: int|
                                0 <= a < b < self@.proxies.len() implies self@.proxies[a].name
                                != self@.proxies[b].name by {
                                assert(self@.proxies[a].name == orig[a].name);
                                assert(self@.proxies[b].name == orig[b].name);
                            }
                        }
                        Reply::Answered { status: 204, payload: Payload::Empty }
                    },
                    None => {
                        proof {
                            let f = |ts: Seq<ToxicView>| remove_first_toxic(ts, toxic_name@);
                            assert forall|j: int| 0 <= j < orig.len() implies
                                crate::conformance::map_toxics(orig, name@, f)[j] == orig[j] by {}
                            assert(crate::conformance::map_toxics(orig, name@, f) =~~= orig);
                            assert(self@ =~~= apply_command(pre, cmd@));
                        }
                        Reply::Answered { status: 404, payload: Payload::Empty }
                    },
                }
            },
            Command::FetchVersion => {
                Reply::Answered { status: 200, payload: Payload::Text(self.version.clone()) }
            },
        }
    }
}

} // verus!
