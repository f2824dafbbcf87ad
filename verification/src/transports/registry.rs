use vstd::prelude::*;
use crate::table::KeyedTable;

verus! {

/// An implementation a protocol key can be served by: one of the built-in
/// transports, or a plug-in known to the caller by a number.
#[derive(PartialEq, Eq, Structural, Clone, Copy, Debug)]
pub enum ProtocolImpl {
    Http,
    Cli,
    WebSocket,
    Grpc,
    Graphql,
    Tcp,
    Udp,
    Sse,
    Mcp,
    WebRtc,
    HttpStream,
    Text,
    Plugin(u64),
}

/// Which implementation serves which protocol key (a provider's
/// `call_template_type` or `provider_type`).
pub struct CommunicationProtocolRegistry {
    map: KeyedTable<ProtocolImpl>,
}

/// The built-in protocols under their keys, in the order they are registered.
pub open spec fn default_protocols() -> Seq<(Seq<char>, ProtocolImpl)> {
    seq![
        ("http"@, ProtocolImpl::Http),
        ("cli"@, ProtocolImpl::Cli),
        ("websocket"@, ProtocolImpl::WebSocket),
        ("grpc"@, ProtocolImpl::Grpc),
        ("graphql"@, ProtocolImpl::Graphql),
        ("tcp"@, ProtocolImpl::Tcp),
        ("udp"@, ProtocolImpl::Udp),
        ("sse"@, ProtocolImpl::Sse),
        ("mcp"@, ProtocolImpl::Mcp),
        ("webrtc"@, ProtocolImpl::WebRtc),
        ("http_stream"@, ProtocolImpl::HttpStream),
        ("text"@, ProtocolImpl::Text),
    ]
}

/// `m` with each of the given entries put in, in order.
pub open spec fn insert_all(m: Map<Seq<char>, ProtocolImpl>, es: Seq<(Seq<char>, ProtocolImpl)>) -> Map<Seq<char>, ProtocolImpl>
    decreases es.len(),
{
    if es.len() == 0 {
        m
    } else {
        insert_all(m, es.drop_last()).insert(es.last().0, es.last().1)
    }
}

/// The implementation under `key` in a registry's map.
pub open spec fn lookup_protocol(m: Map<Seq<char>, ProtocolImpl>, key: Seq<char>) -> Option<ProtocolImpl> {
    if m.dom().contains(key) {
        Some(m[key])
    } else {
        None
    }
}

impl CommunicationProtocolRegistry {
    /// No key is registered twice.
    pub closed spec fn wf(&self) -> bool {
        self.map.wf()
    }

    /// The registry as a map from protocol keys to implementations.
    pub closed spec fn view(&self) -> Map<Seq<char>, ProtocolImpl> {
        self.map@
    }

    /// An empty registry.
    pub fn new() -> (r: CommunicationProtocolRegistry)
        ensures
            r.wf(),
            r@ == Map::<Seq<char>, ProtocolImpl>::empty(),
    {
        CommunicationProtocolRegistry { map: KeyedTable::new() }
    }

    /// A registry holding the built-in protocols.
    pub fn with_default_protocols() -> (r: CommunicationProtocolRegistry)
        ensures
            r.wf(),
            r@ == insert_all(Map::empty(), default_protocols()),
    {
        let mut reg = Self::new();
        reg.register_default_protocols();
        reg
    }

    /// A registry holding the built-in protocols (the older name).
    pub fn with_default_transports() -> (r: CommunicationProtocolRegistry)
        ensures
            r.wf(),
            r@ == insert_all(Map::empty(), default_protocols()),
    {
        Self::with_default_protocols()
    }

    /// Registers the built-in protocols, replacing what their keys held.
    pub fn register_default_protocols(&mut self)
        requires
            old(self).wf(),
        ensures
            final(self).wf(),
            final(self)@ == insert_all(old(self)@, default_protocols()),
    {
        let ghost m0 = self@;
        self.register("http", ProtocolImpl::Http);
        self.register("cli", ProtocolImpl::Cli);
        self.register("websocket", ProtocolImpl::WebSocket);
        self.register("grpc", ProtocolImpl::Grpc);
        self.register("graphql", ProtocolImpl::Graphql);
        self.register("tcp", ProtocolImpl::Tcp);
        self.register("udp", ProtocolImpl::Udp);
        self.register("sse", ProtocolImpl::Sse);
        self.register("mcp", ProtocolImpl::Mcp);
        self.register("webrtc", ProtocolImpl::WebRtc);
        self.register("http_stream", ProtocolImpl::HttpStream);
        self.register("text", ProtocolImpl::Text);
        proof {
            let d = default_protocols();
            assert(d.drop_last().drop_last().drop_last().drop_last().drop_last().drop_last().drop_last().drop_last().drop_last().drop_last().drop_last().drop_last() =~= Seq::<(Seq<char>, ProtocolImpl)>::empty());
            reveal_with_fuel(insert_all, 13);
        }
    }

    /// Registers `protocol` under `key`, replacing what the key held.
    pub fn register(&mut self, key: &str, protocol: ProtocolImpl)
        requires
            old(self).wf(),
        ensures
            final(self).wf(),
            final(self)@ == old(self)@.insert(key@, protocol),
    {
        self.map.insert(key, protocol);
    }

    /// The implementation registered under `key`.
    pub fn get(&self, key: &str) -> (r: Option<ProtocolImpl>)
        requires
            self.wf(),
        ensures
            r == lookup_protocol(self@, key@),
    {
        match self.map.get(key) {
            Some(p) => Some(*p),
            None => None,
        }
    }

    /// The whole table of registrations.
    pub fn as_map(&self) -> (r: KeyedTable<ProtocolImpl>)
        requires
            self.wf(),
        ensures
            r.wf(),
            r@ == self@,
    {
        self.map.copy()
    }

    /// A copy of the registry.
    pub fn duplicate(&self) -> (r: CommunicationProtocolRegistry)
        requires
            self.wf(),
        ensures
            r.wf(),
            r@ == self@,
    {
        CommunicationProtocolRegistry { map: self.map.copy() }
    }
}

/// Registers a protocol in the registry that all clients share.
pub fn register_communication_protocol(shared: &mut CommunicationProtocolRegistry, key: &str, protocol: ProtocolImpl)
    requires
        old(shared).wf(),
    ensures
        final(shared).wf(),
        final(shared)@ == old(shared)@.insert(key@, protocol),
{
    shared.register(key, protocol);
}

/// A copy of the registry that all clients share, as it is now.
pub fn communication_protocols_snapshot(shared: &CommunicationProtocolRegistry) -> (r: CommunicationProtocolRegistry)
    requires
        shared.wf(),
    ensures
        r.wf(),
        r@ == shared@,
{
    shared.duplicate()
}

/// What is registered under a key is what a lookup of that key finds, and
/// registering under one key leaves every other key as it was.
pub proof fn law_register_then_get(m: Map<Seq<char>, ProtocolImpl>, key: Seq<char>, protocol: ProtocolImpl, other: Seq<char>)
    ensures
        lookup_protocol(m.insert(key, protocol), key) == Some(protocol),
        other != key ==> lookup_protocol(m.insert(key, protocol), other) == lookup_protocol(m, other),
{
}

/// The keys of a list of entries.
pub open spec fn entry_keys(es: Seq<(Seq<char>, ProtocolImpl)>) -> Seq<Seq<char>> {
    es.map_values(|e: (Seq<char>, ProtocolImpl)| e.0)
}

proof fn lemma_insert_all_dom(m: Map<Seq<char>, ProtocolImpl>, es: Seq<(Seq<char>, ProtocolImpl)>)
    ensures
        insert_all(m, es).dom() =~= m.dom() + entry_keys(es).to_set(),
    decreases es.len(),
{
    if es.len() > 0 {
        lemma_insert_all_dom(m, es.drop_last());
        assert(entry_keys(es) =~= entry_keys(es.drop_last()).push(es.last().0));
        assert forall|k: Seq<char>| #[trigger] entry_keys(es).to_set().contains(k) <==> (
        entry_keys(es.drop_last()).to_set().contains(k) || k == es.last().0) by {
            if entry_keys(es).to_set().contains(k) {
                let i = choose|i: int| 0 <= i < entry_keys(es).len() && entry_keys(es)[i] == k;
                if i < es.len() - 1 {
                    assert(entry_keys(es.drop_last())[i] == k);
                }
            }
            if entry_keys(es.drop_last()).to_set().contains(k) {
                let i = choose|i: int| 0 <= i < entry_keys(es.drop_last()).len() && entry_keys(es.drop_last())[i] == k;
                assert(entry_keys(es)[i] == k);
            }
            if k == es.last().0 {
                assert(entry_keys(es)[es.len() - 1] == k);
            }
        }
    } else {
        assert(entry_keys(es).to_set() =~= Set::<Seq<char>>::empty());
    }
}

proof fn lemma_insert_all_get(m: Map<Seq<char>, ProtocolImpl>, es: Seq<(Seq<char>, ProtocolImpl)>, i: int)
    requires
        0 <= i < es.len(),
        forall|a: int, b: int| 0 <= a < b < es.len() ==> es[a].0 != es[b].0,
    ensures
        insert_all(m, es).dom().contains(es[i].0),
        insert_all(m, es)[es[i].0] == es[i].1,
    decreases es.len(),
{
    if i < es.len() - 1 {
        lemma_insert_all_get(m, es.drop_last(), i);
        assert(es.drop_last()[i] == es[i]);
    }
}

/// The built-in registry serves exactly the twelve protocol keys, each by
/// its own transport.
pub proof fn law_default_protocols()
    ensures
        ({
            let m = insert_all(Map::empty(), default_protocols());
            &&& m.dom() == entry_keys(default_protocols()).to_set()
            &&& m.dom().len() == 12
            &&& forall|i: int| 0 <= i < 12 ==> #[trigger] lookup_protocol(m, default_protocols()[i].0)
                == Some(default_protocols()[i].1)
        }),
{
    reveal_strlit("http");
    reveal_strlit("cli");
    reveal_strlit("websocket");
    reveal_strlit("grpc");
    reveal_strlit("graphql");
    reveal_strlit("tcp");
    reveal_strlit("udp");
    reveal_strlit("sse");
    reveal_strlit("mcp");
    reveal_strlit("webrtc");
    reveal_strlit("http_stream");
    reveal_strlit("text");
    let d = default_protocols();
    let keys = entry_keys(d);
    assert forall|i: int, j: int| 0 <= i < j < 12 implies d[i].0 != d[j].0 by {
        assert(d[i].0.len() != d[j].0.len() || d[i].0[0] != d[j].0[0]);
    }
    let m = insert_all(Map::empty(), d);
    lemma_insert_all_dom(Map::empty(), d);
    assert(m.dom() =~= keys.to_set());
    assert forall|i: int| 0 <= i < 12 implies #[trigger] lookup_protocol(m, d[i].0) == Some(d[i].1) by {
        lemma_insert_all_get(Map::empty(), d, i);
    }
    assert forall|i: int, j: int| 0 <= i < j < keys.len() implies keys[i] != keys[j] by {
        assert(keys[i] == d[i].0 && keys[j] == d[j].0);
    }
    keys.unique_seq_to_set();
}

} // verus!
