use vstd::prelude::*;

verus! {

/// Enough to map a shared region again: its size and its key.
#[derive(Clone, Copy, Debug)]
pub struct ShMemDescription {
    /// The size of the region in bytes.
    pub size: usize,
    /// The key of the region, NUL-padded.
    pub str_bytes: [u8; 20],
}

/// A request sent to the shared-map service.
#[derive(Clone, Copy, Debug)]
pub enum AshmemRequest {
    /// Make a new map of this size.
    NewMap(usize),
    /// Hand out again a map another client already has.
    ExistingMap(ShMemDescription),
    /// The client drops a map it was given.
    Deregister(u32),
}

/// The answer of the service: a map's key and a descriptor for it.
#[derive(Clone, Copy, Debug)]
pub struct AshmemReply {
    pub shm_slice: [u8; 20],
    pub fd: i32,
}

/// Whether `r` is the answer that says no map could be had: an all-zero
/// key and no descriptor.
pub open spec fn is_no_map(r: AshmemReply) -> bool {
    r.shm_slice@ == Seq::new(20, |i: int| 0u8) && r.fd == -1
}

/// Where a client of the service connects.
#[derive(Debug)]
pub struct AshmemClient {
    unix_socket_file: String,
}

impl AshmemClient {
    /// A client of the service listening on `unix_socket_file`.
    pub fn new(unix_socket_file: String) -> (r: Self)
        ensures
            r.socket_file()@ == unix_socket_file@,
    {
        AshmemClient { unix_socket_file }
    }

    /// The socket name.
    pub closed spec fn socket_file(&self) -> String {
        self.unix_socket_file
    }

    /// The socket name.
    pub fn unix_socket_file(&self) -> (r: &str)
        ensures
            r@ == self.socket_file()@,
    {
        self.unix_socket_file.as_str()
    }
}

/// The service's own end of a served shared map: the map it made, once
/// made.
#[derive(Debug)]
pub struct ServedShMemServer {
    shmem: Option<ShMemDescription>,
}

impl ServedShMemServer {
    /// A server end that holds no map yet.
    pub fn new() -> (r: Self)
        ensures
            r.shmem_view() is None,
    {
        ServedShMemServer { shmem: None }
    }

    /// The map held, if any.
    pub closed spec fn shmem_view(&self) -> Option<ShMemDescription> {
        self.shmem
    }

    /// The map held, if any.
    pub fn shmem(&self) -> (r: Option<ShMemDescription>)
        ensures
            r == self.shmem_view(),
    {
        self.shmem
    }

    /// Holds `description` from now on.
    pub fn set_shmem(&mut self, description: ShMemDescription)
        ensures
            final(self).shmem_view() == Some(description),
    {
        self.shmem = Some(description);
    }
}

/// The maps the service has handed out, by key.
#[verifier::external_body]
#[derive(Debug)]
pub struct ServedMaps {
    inner: hashbrown::HashMap<[u8; 20], AshmemReply>,
}

/// The maps a `ServedMaps` holds, by key.
pub uninterp spec fn served(m: ServedMaps) -> Map<Seq<u8>, AshmemReply>;

/// No map at all.
pub open spec fn none_served() -> Map<Seq<u8>, AshmemReply> {
    Map::empty()
}

impl ServedMaps {
    /// Relies on `hashbrown::HashMap::new`: the map starts empty.
    #[verifier::external_body]
    fn new() -> (r: ServedMaps)
        ensures
            served(r) == none_served(),
    {
        ServedMaps { inner: hashbrown::HashMap::new() }
    }

    /// Relies on `hashbrown::HashMap::get`: the value stored under `k`, if
    /// any; keys are equal when their bytes are.
    #[verifier::external_body]
    fn get(&self, k: &[u8; 20]) -> (r: Option<AshmemReply>)
        ensures
            r == (if served(*self).contains_key(k@) {
                Some(served(*self)[k@])
            } else {
                None
            }),
    {
        self.inner.get(k).copied()
    }

    /// Relies on `hashbrown::HashMap::insert`: afterwards `k` maps to `v`, and
    /// every other key keeps its value.
    #[verifier::external_body]
    fn insert(&mut self, k: [u8; 20], v: AshmemReply)
        ensures
            served(*final(self)) == served(*old(self)).insert(k@, v),
    {
        self.inner.insert(k, v);
    }
}

/// The bookkeeping of the shared-map service.
#[derive(Debug)]
pub struct AshmemRegistry {
    maps: ServedMaps,
}

impl View for AshmemRegistry {
    type V = Map<Seq<u8>, AshmemReply>;

    closed spec fn view(&self) -> Map<Seq<u8>, AshmemReply> {
        served(self.maps)
    }
}

/// The answer that says no map could be had.
fn no_map_reply() -> (r: AshmemReply)
    ensures
        is_no_map(r),
{
    let r = AshmemReply { shm_slice: [0u8; 20], fd: -1 };
    assert(r.shm_slice@ =~= Seq::new(20, |i: int| 0u8));
    r
}

impl AshmemRegistry {
    /// No map handed out yet.
    pub fn new() -> (r: Self)
        ensures
            r@ == none_served(),
    {
        AshmemRegistry { maps: ServedMaps::new() }
    }

    /// Answers `request`: a new map is recorded under its key and handed
    /// out; a known map is handed out again; an unknown one, or a map that
    /// could not be made, gets the empty answer; a deregistration none.
    /// `created` is what making the map gave, for a `NewMap` request.
    pub fn handle_request(&mut self, request: AshmemRequest, created: Option<AshmemReply>) -> (r:
        Option<AshmemReply>)
        ensures
            match request {
                AshmemRequest::NewMap(_) => match created {
                    Some(m) => r == Some(m) && final(self)@ == old(self)@.insert(m.shm_slice@, m),
                    None => r matches Some(a) && is_no_map(a) && final(self)@ == old(self)@,
                },
                AshmemRequest::ExistingMap(d) => final(self)@ == old(self)@ && if old(
                    self,
                )@.contains_key(d.str_bytes@) {
                    r == Some(old(self)@[d.str_bytes@])
                } else {
                    r matches Some(a) && is_no_map(a)
                },
                AshmemRequest::Deregister(_) => r is None && final(self)@ == old(self)@,
            },
    {
        match request {
            AshmemRequest::NewMap(_) => match created {
                Some(m) => {
                    self.maps.insert(m.shm_slice, m);
                    Some(m)
                },
                None => Some(no_map_reply()),
            },
            AshmemRequest::ExistingMap(d) => match self.maps.get(&d.str_bytes) {
                Some(m) => Some(m),
                None => Some(no_map_reply()),
            },
            AshmemRequest::Deregister(_) => None,
        }
    }
}

/// What the service does about one polled socket.
#[derive(Clone, Copy, Debug, PartialEq, Eq, Structural)]
pub enum PollAction {
    /// Read and answer a request from this client.
    Serve,
    /// Accept a new client on the listening socket.
    Accept,
    /// The client hung up: forget it.
    Forget,
    /// Nothing the service knows how to handle.
    Report,
}

/// What to do about a socket that poll reported: a readable known client is
/// served, a readable listener accepts, a hang-up drops the client, and
/// anything else is reported.
pub fn poll_action(readable: bool, hung_up: bool, known_client: bool) -> (r: PollAction)
    ensures
        readable && known_client ==> r == PollAction::Serve,
        readable && !known_client ==> r == PollAction::Accept,
        !readable && hung_up ==> r == PollAction::Forget,
        !readable && !hung_up ==> r == PollAction::Report,
{
    if readable {
        if known_client {
            PollAction::Serve
        } else {
            PollAction::Accept
        }
    } else if hung_up {
        PollAction::Forget
    } else {
        PollAction::Report
    }
}

} // verus!
