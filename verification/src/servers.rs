use vstd::prelude::*;
use crate::errors::CacheError;
use crate::ids::{format_version_id, random_version_id, uuid_text_of};
use crate::versions::{entry_has_name, VersionEntry, Versions};

verus! {

/// How a configured server is reached and which game version it runs.
#[derive(Debug, Clone)]
pub enum ServerInfo {
    /// A plain game server: an address, and the version it serves.
    Simple { ip: String, version: String },
    /// A server with an endpoint API; the version list is queried live, and
    /// the user's preferred version is remembered as a best guess.
    Endpoint { endpoint: String, preferred_version: Option<String> },
}

impl ServerInfo {
    /// An exact copy.
    pub fn duplicate(&self) -> (r: ServerInfo)
        ensures
            r == *self,
    {
        match self {
            ServerInfo::Simple { ip, version } => ServerInfo::Simple {
                ip: ip.clone(),
                version: version.clone(),
            },
            ServerInfo::Endpoint { endpoint, preferred_version } => ServerInfo::Endpoint {
                endpoint: endpoint.clone(),
                preferred_version: match preferred_version {
                    Some(p) => Some(p.clone()),
                    None => None,
                },
            },
        }
    }
}

/// One configured server entry.
#[derive(Debug, Clone)]
pub struct Server {
    pub uuid: u128,
    pub description: Option<String>,
    pub info: ServerInfo,
}

impl Server {
    /// An exact copy.
    pub fn duplicate(&self) -> (r: Server)
        ensures
            r == *self,
    {
        Server {
            uuid: self.uuid,
            description: match &self.description {
                Some(d) => Some(d.clone()),
                None => None,
            },
            info: self.info.duplicate(),
        }
    }
}

/// What a caller supplies to add a server.
#[derive(Debug, Clone)]
pub struct NewServerDetails {
    pub description: String,
    pub ip: Option<String>,
    pub version: Option<String>,
    pub endpoint: Option<String>,
}

/// A server entry in the flat shape used for serialization on disk.
#[derive(Debug, Clone)]
pub struct FlatServer {
    pub uuid: u128,
    pub description: Option<String>,
    pub ip: Option<String>,
    pub version: Option<String>,
    pub endpoint: Option<String>,
}

/// The flat shape of a whole server list.
#[derive(Debug, Default)]
pub struct FlatServers {
    pub servers: Vec<FlatServer>,
    pub favorites: Vec<u128>,
}

/// The flat form of a server entry.
pub open spec fn flat_of(s: Server) -> FlatServer {
    match s.info {
        ServerInfo::Simple { ip, version } => FlatServer {
            uuid: s.uuid,
            description: s.description,
            ip: Some(ip),
            version: Some(version),
            endpoint: None,
        },
        ServerInfo::Endpoint { endpoint, preferred_version } => FlatServer {
            uuid: s.uuid,
            description: s.description,
            ip: None,
            version: preferred_version,
            endpoint: Some(endpoint),
        },
    }
}

/// A flat entry that denotes a server: it has an endpoint, or both an
/// address and a version.
pub open spec fn flat_wf(f: FlatServer) -> bool {
    f.endpoint is Some || (f.ip is Some && f.version is Some)
}

/// The server a well-formed flat entry denotes.
pub open spec fn server_of(f: FlatServer) -> Server {
    match f.endpoint {
        Some(e) => Server {
            uuid: f.uuid,
            description: f.description,
            info: ServerInfo::Endpoint { endpoint: e, preferred_version: f.version },
        },
        None => Server {
            uuid: f.uuid,
            description: f.description,
            info: ServerInfo::Simple { ip: f.ip->Some_0, version: f.version->Some_0 },
        },
    }
}

impl From<Server> for FlatServer {
    fn from(server: Server) -> FlatServer {
        match server.info {
            ServerInfo::Simple { ip, version } => FlatServer {
                uuid: server.uuid,
                description: server.description,
                ip: Some(ip),
                version: Some(version),
                endpoint: None,
            },
            ServerInfo::Endpoint { endpoint, preferred_version } => FlatServer {
                uuid: server.uuid,
                description: server.description,
                ip: None,
                version: preferred_version,
                endpoint: Some(endpoint),
            },
        }
    }
}

impl vstd::std_specs::convert::FromSpecImpl<Server> for FlatServer {
    open spec fn obeys_from_spec() -> bool {
        true
    }

    open spec fn from_spec(server: Server) -> FlatServer {
        flat_of(server)
    }
}

impl FlatServer {
    /// The server this flat entry denotes, or nothing when the entry names
    /// neither an endpoint nor both an address and a version.
    pub fn to_server(self) -> (r: Option<Server>)
        ensures
            r is Some <==> flat_wf(self),
            r matches Some(s) ==> s == server_of(self),
    {
        match self.endpoint {
            Some(e) => Some(
                Server {
                    uuid: self.uuid,
                    description: self.description,
                    info: ServerInfo::Endpoint { endpoint: e, preferred_version: self.version },
                },
            ),
            None => match (self.ip, self.version) {
                (Some(ip), Some(version)) => Some(
                    Server {
                        uuid: self.uuid,
                        description: self.description,
                        info: ServerInfo::Simple { ip, version },
                    },
                ),
                _ => None,
            },
        }
    }
}

/// The server prefers or selects the version with this canonical id text:
/// a plain server serves exactly it, an endpoint server remembers it as the
/// user's preferred version.
pub open spec fn server_prefers(s: Server, v: Seq<char>) -> bool {
    match s.info {
        ServerInfo::Simple { version, .. } => version@ == v,
        ServerInfo::Endpoint { preferred_version, .. } => preferred_version matches Some(p)
            && p@ == v,
    }
}

/// How many servers in the list prefer or select this version text.
pub open spec fn use_count(s: Seq<Server>, v: Seq<char>) -> nat
    decreases s.len(),
{
    if s.len() == 0 {
        0
    } else {
        use_count(s.drop_last(), v) + if server_prefers(s.last(), v) {
            1nat
        } else {
            0nat
        }
    }
}

/// Some server carries this id.
pub open spec fn has_server(s: Seq<Server>, uuid: u128) -> bool {
    exists|i: int| 0 <= i < s.len() && s[i].uuid == uuid
}

/// The predicate that keeps a server when one id is removed.
pub open spec fn server_uuid_differs(uuid: u128) -> spec_fn(Server) -> bool {
    |s: Server| s.uuid != uuid
}

/// The list a merge produces: every incoming server whose id is new is
/// appended, in order, against the growing list.
pub open spec fn merge_servers_spec(base: Seq<Server>, other: Seq<Server>) -> Seq<Server>
    decreases other.len(),
{
    if other.len() == 0 {
        base
    } else {
        merge_servers_spec(
            if has_server(base, other[0].uuid) {
                base
            } else {
                base.push(other[0])
            },
            other.drop_first(),
        )
    }
}

/// What migrating legacy version names does to one server entry: a plain
/// server whose version text is the declared name of a catalog entry gets
/// that entry's canonical id text instead; everything else is untouched.
pub open spec fn fixup_rel(before: Server, after: Server, versions: Seq<VersionEntry>) -> bool {
    &&& after.uuid == before.uuid
    &&& after.description == before.description
    &&& match before.info {
        ServerInfo::Endpoint { .. } => after.info == before.info,
        ServerInfo::Simple { ip, version } => {
            if exists|j: int| 0 <= j < versions.len() && entry_has_name(versions[j], version@) {
                exists|j: int|
                    {
                        &&& 0 <= j < versions.len()
                        &&& entry_has_name(versions[j], version@)
                        &&& (forall|k: int|
                            0 <= k < j ==> !entry_has_name(versions[k], version@))
                        &&& (after.info matches ServerInfo::Simple {
                            ip: ip2,
                            version: v2,
                        } && ip2 == ip && v2@ == uuid_text_of(versions[j].uuid))
                    }
            } else {
                after.info == before.info
            }
        },
    }
}

/// Membership of an id in a server list.
fn contains_server_uuid(vs: &Vec<Server>, uuid: u128) -> (r: bool)
    ensures
        r == has_server(vs@, uuid),
{
    let mut i: usize = 0;
    while i < vs.len()
        invariant
            i <= vs@.len(),
            forall|j: int| 0 <= j < i ==> vs@[j].uuid != uuid,
        decreases vs@.len() - i,
    {
        if vs[i].uuid == uuid {
            assert(has_server(vs@, uuid));
            return true;
        }
        i = i + 1;
    }
    false
}

/// The configured server list and the user's favorites.
#[derive(Debug, Default)]
pub struct Servers {
    servers: Vec<Server>,
    favorites: Vec<u128>,
}

impl Servers {
    /// The server entries, in order.
    pub closed spec fn servers(&self) -> Seq<Server> {
        self.servers@
    }

    /// The favorite ids, in order.
    pub closed spec fn favorites(&self) -> Seq<u128> {
        self.favorites@
    }

    /// An empty server list.
    pub fn new() -> (r: Self)
        ensures
            r.servers().len() == 0,
            r.favorites().len() == 0,
    {
        Servers { servers: Vec::new(), favorites: Vec::new() }
    }

    /// The first server with this id, if any.
    pub fn get_entry(&self, uuid: u128) -> (r: Option<&Server>)
        ensures
            r is Some <==> has_server(self.servers(), uuid),
            match r {
                Some(s) => exists|j: int|
                    0 <= j < self.servers().len() && self.servers()[j] == *s && s.uuid == uuid
                        && (forall|k: int| 0 <= k < j ==> self.servers()[k].uuid != uuid),
                None => true,
            },
    {
        let mut i: usize = 0;
        while i < self.servers.len()
            invariant
                i <= self.servers@.len(),
                forall|j: int| 0 <= j < i ==> self.servers@[j].uuid != uuid,
            decreases self.servers@.len() - i,
        {
            if self.servers[i].uuid == uuid {
                return Some(&self.servers[i]);
            }
            i = i + 1;
        }
        None
    }

    /// Remove every server with this id.
    pub fn remove_entry(&mut self, uuid: u128)
        ensures
            final(self).servers() == old(self).servers().filter(server_uuid_differs(uuid)),
            final(self).favorites() == old(self).favorites(),
    {
        let ghost orig = self.servers@;
        let ghost pred = server_uuid_differs(uuid);
        let mut out: Vec<Server> = Vec::new();
        let mut i: usize = 0;
        while i < self.servers.len()
            invariant
                i <= orig.len(),
                self.servers@ == orig,
                self.favorites@ == old(self).favorites(),
                out@ == orig.take(i as int).filter(pred),
                pred == server_uuid_differs(uuid),
            decreases orig.len() - i,
        {
            let s = self.servers[i].duplicate();
            proof {
                assert(s == orig[i as int]);
                assert(pred(orig[i as int]) == (s.uuid != uuid));
                orig.lemma_take_succ_push(i as int);
                orig.take(i as int).lemma_filter_push(orig[i as int], pred);
            }
            if s.uuid != uuid {
                out.push(s);
            }
            i = i + 1;
        }
        proof {
            assert(orig.take(orig.len() as int) =~= orig);
        }
        self.servers = out;
    }

    /// Add a server built from the caller's details under a freshly drawn
    /// id, which is returned.  An endpoint server starts with no preferred
    /// version; a plain server must name an address and a version.
    pub fn add_entry(&mut self, details: NewServerDetails) -> (r: u128)
        requires
            details.endpoint is Some || (details.ip is Some && details.version is Some),
        ensures
            final(self).favorites() == old(self).favorites(),
            final(self).servers().len() == old(self).servers().len() + 1,
            final(self).servers().drop_last() == old(self).servers(),
            ({
                let s = final(self).servers().last();
                &&& s.uuid == r
                &&& s.description matches Some(d) && d@ == details.description@
                &&& match details.endpoint {
                    Some(e) => s.info == (ServerInfo::Endpoint {
                        endpoint: e,
                        preferred_version: None,
                    }),
                    None => s.info == (ServerInfo::Simple {
                        ip: details.ip->Some_0,
                        version: details.version->Some_0,
                    }),
                }
            }),
    {
        let uuid = random_version_id();
        let info = match details.endpoint {
            Some(e) => ServerInfo::Endpoint { endpoint: e, preferred_version: None },
            None => ServerInfo::Simple {
                ip: details.ip.unwrap(),
                version: details.version.unwrap(),
            },
        };
        self.servers.push(
            Server { uuid, description: Some(details.description), info },
        );
        proof {
            assert(self.servers@.drop_last() =~= old(self).servers());
        }
        uuid
    }

    /// Replace the first server that carries the entry's id; `NotFound`
    /// when no server does, with nothing changed.
    pub fn update_entry(&mut self, entry: Server) -> (r: Result<(), CacheError>)
        ensures
            final(self).favorites() == old(self).favorites(),
            r is Ok <==> has_server(old(self).servers(), entry.uuid),
            r is Err ==> (r matches Err(CacheError::NotFound) && *final(self) == *old(self)),
            r is Ok ==> exists|i: int|
                {
                    &&& 0 <= i < old(self).servers().len()
                    &&& old(self).servers()[i].uuid == entry.uuid
                    &&& (forall|j: int|
                        0 <= j < i ==> old(self).servers()[j].uuid != entry.uuid)
                    &&& final(self).servers() == old(self).servers().update(i, entry)
                },
    {
        let mut i: usize = 0;
        while i < self.servers.len()
            invariant
                i <= self.servers@.len(),
                *self == *old(self),
                forall|j: int| 0 <= j < i ==> self.servers@[j].uuid != entry.uuid,
            decreases self.servers@.len() - i,
        {
            if self.servers[i].uuid == entry.uuid {
                let ghost idx = i as int;
                self.servers[i] = entry;
                proof {
                    assert(0 <= idx < old(self).servers().len() && old(self).servers()[idx].uuid
                        == entry.uuid && (forall|j: int|
                        0 <= j < idx ==> old(self).servers()[j].uuid != entry.uuid)
                        && self.servers@ == old(self).servers().update(idx, entry));
                }
                return Ok(());
            }
            i = i + 1;
        }
        Err(CacheError::NotFound)
    }

    /// Append every server of the other list whose id is not yet present,
    /// in order, and say how many were added.
    pub fn merge(&mut self, other: &Servers) -> (count: usize)
        ensures
            final(self).servers() == merge_servers_spec(old(self).servers(), other.servers()),
            final(self).favorites() == old(self).favorites(),
            old(self).servers().len() + count == final(self).servers().len(),
    {
        let mut count: usize = 0;
        let mut i: usize = 0;
        proof {
            assert(other.servers@.skip(0) =~= other.servers@);
        }
        while i < other.servers.len()
            invariant
                i <= other.servers@.len(),
                count <= i,
                merge_servers_spec(self.servers@, other.servers@.skip(i as int))
                    == merge_servers_spec(old(self).servers(), other.servers@),
                self.favorites@ == old(self).favorites(),
                old(self).servers().len() + count == self.servers@.len(),
            decreases other.servers@.len() - i,
        {
            proof {
                assert(other.servers@.skip(i as int)[0] == other.servers@[i as int]);
                assert(other.servers@.skip(i as int).drop_first() =~= other.servers@.skip(
                    i as int + 1,
                ));
            }
            let held = contains_server_uuid(&self.servers, other.servers[i].uuid);
            if !held {
                self.servers.push(other.servers[i].duplicate());
                count = count + 1;
            }
            i = i + 1;
        }
        proof {
            assert(other.servers@.skip(other.servers@.len() as int) =~= Seq::<Server>::empty());
        }
        count
    }

    /// How many configured servers prefer or select this version — plain
    /// servers by serving it, endpoint servers by the user's preferred
    /// version.  The cache engine queries this before pruning a superseded
    /// cache; it does not own or cache server data itself.
    pub fn get_version_use_count(&self, uuid: u128) -> (r: usize)
        ensures
            r == use_count(self.servers(), uuid_text_of(uuid)),
    {
        let text = format_version_id(uuid);
        let mut count: usize = 0;
        let mut i: usize = 0;
        while i < self.servers.len()
            invariant
                i <= self.servers@.len(),
                count <= i,
                text@ == uuid_text_of(uuid),
                count == use_count(self.servers@.take(i as int), uuid_text_of(uuid)),
            decreases self.servers@.len() - i,
        {
            let matched = match &self.servers[i].info {
                ServerInfo::Simple { version, .. } => *version == text,
                ServerInfo::Endpoint { preferred_version, .. } => match preferred_version {
                    Some(p) => *p == text,
                    None => false,
                },
            };
            proof {
                assert(self.servers@.take(i as int + 1).drop_last() =~= self.servers@.take(
                    i as int,
                ));
                assert(self.servers@.take(i as int + 1).last() == self.servers@[i as int]);
                assert(matched == server_prefers(self.servers@[i as int], uuid_text_of(uuid)));
            }
            if matched {
                count = count + 1;
            }
            i = i + 1;
        }
        proof {
            assert(self.servers@.take(self.servers@.len() as int) =~= self.servers@);
        }
        count
    }

    /// The flat form of the whole list, for serialization.
    pub fn flatten(self) -> (r: FlatServers)
        ensures
            r.favorites@ == self.favorites(),
            r.servers@.len() == self.servers().len(),
            forall|i: int|
                0 <= i < self.servers().len() ==> r.servers@[i] == flat_of(
                    #[trigger] self.servers()[i],
                ),
    {
        let ghost orig = self.servers@;
        let mut servers = self.servers;
        let mut out: Vec<FlatServer> = Vec::new();
        let mut k: usize = 0;
        let total: usize = servers.len();
        proof {
            assert(orig.skip(0) =~= orig);
        }
        while servers.len() > 0
            invariant
                total == orig.len(),
                k <= total,
                servers@ == orig.skip(k as int),
                out@.len() == k,
                forall|i: int| 0 <= i < k ==> out@[i] == flat_of(#[trigger] orig[i]),
            decreases servers@.len(),
        {
            proof {
                assert(orig.skip(k as int)[0] == orig[k as int]);
                assert(orig.skip(k as int).remove(0) =~= orig.skip(k as int + 1));
            }
            let s = servers.remove(0);
            out.push(FlatServer::from(s));
            k = k + 1;
        }
        FlatServers { servers: out, favorites: self.favorites }
    }

    /// Rebuild a server list from its flat form; nothing when some entry is
    /// malformed.
    pub fn from_flat(flat: FlatServers) -> (r: Option<Servers>)
        ensures
            r is Some <==> (forall|i: int|
                0 <= i < flat.servers@.len() ==> flat_wf(#[trigger] flat.servers@[i])),
            r matches Some(s) ==> {
                &&& s.favorites() == flat.favorites@
                &&& s.servers().len() == flat.servers@.len()
                &&& forall|i: int|
                    0 <= i < flat.servers@.len() ==> s.servers()[i] == server_of(
                        #[trigger] flat.servers@[i],
                    )
            },
    {
        let ghost orig = flat.servers@;
        let mut entries = flat.servers;
        let mut out: Vec<Server> = Vec::new();
        let mut k: usize = 0;
        let total: usize = entries.len();
        proof {
            assert(orig.skip(0) =~= orig);
        }
        while entries.len() > 0
            invariant
                total == orig.len(),
                k <= total,
                entries@ == orig.skip(k as int),
                orig == flat.servers@,
                out@.len() == k,
                forall|i: int| 0 <= i < k ==> flat_wf(#[trigger] orig[i]),
                forall|i: int| 0 <= i < k ==> out@[i] == server_of(#[trigger] orig[i]),
            decreases entries@.len(),
        {
            proof {
                assert(orig.skip(k as int)[0] == orig[k as int]);
                assert(orig.skip(k as int).remove(0) =~= orig.skip(k as int + 1));
            }
            let f = entries.remove(0);
            let ghost fv = orig[k as int];
            match f.to_server() {
                Some(s) => {
                    out.push(s);
                },
                None => {
                    proof {
                        assert(0 <= k < flat.servers@.len() && !flat_wf(
                            flat.servers@[k as int],
                        ));
                    }
                    return None;
                },
            }
            k = k + 1;
        }
        Some(Servers { servers: out, favorites: flat.favorites })
    }
}

/// Migrate legacy server entries that name a version by its description to
/// the version's id: every plain server whose version text matches a
/// catalog entry's name is rewritten to that entry's canonical id text;
/// every other entry is untouched.
pub fn fixup_server_versions(servers: &mut Servers, versions: &Versions)
    ensures
        final(servers).servers().len() == old(servers).servers().len(),
        final(servers).favorites() == old(servers).favorites(),
        forall|i: int|
            0 <= i < old(servers).servers().len() ==> fixup_rel(
                #[trigger] old(servers).servers()[i],
                final(servers).servers()[i],
                versions.entries(),
            ),
{
    let mut i: usize = 0;
    while i < servers.servers.len()
        invariant
            i <= servers.servers@.len(),
            servers.servers@.len() == old(servers).servers().len(),
            servers.favorites@ == old(servers).favorites(),
            forall|j: int| i <= j < servers.servers@.len() ==> servers.servers@[j] == old(
                servers,
            ).servers()[j],
            forall|j: int|
                0 <= j < i ==> fixup_rel(
                    #[trigger] old(servers).servers()[j],
                    servers.servers@[j],
                    versions.entries(),
                ),
        decreases servers.servers@.len() - i,
    {
        let replacement: Option<ServerInfo> = match &servers.servers[i].info {
            ServerInfo::Simple { ip, version } => {
                match versions.get_entry_by_name(version.as_str()) {
                    Some(entry) => Some(
                        ServerInfo::Simple {
                            ip: ip.clone(),
                            version: format_version_id(entry.uuid),
                        },
                    ),
                    None => None,
                }
            },
            ServerInfo::Endpoint { .. } => None,
        };
        if let Some(new_info) = replacement {
            let uuid = servers.servers[i].uuid;
            let description = match &servers.servers[i].description {
                Some(d) => Some(d.clone()),
                None => None,
            };
            servers.servers[i] = Server { uuid, description, info: new_info };
        }
        i = i + 1;
    }
}

} // verus!
