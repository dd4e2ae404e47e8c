use vstd::prelude::*;

use crate::answer::{DNSQueryAnswer, DEFAULT_TTL, RCODE_NOERROR};
use crate::block_list::{blocks, parse_block_list, BlockList};
use crate::cache::ReplyCache;
use crate::codec_laws::lemma_decoded_wf;
use crate::question::{decode_outcome, labels_view, DNSQueryQuestion, DecodeError};

verus! {

/// State of a service whose seed block-list has not been loaded.
pub struct NotIndexed;

/// State of a service that holds its seed block-list and has no refresher yet.
pub struct NotRegisteredForPeriodicUpdate;

/// State of a service that may answer queries.
pub struct Ready;

/// Where the seed block-list is read from unless configured otherwise.
pub fn get_default_db_path() -> (r: String)
    ensures
        r@ == "./var/db/init.txt"@,
{
    "./var/db/init.txt".to_owned()
}

/// What to do with a decoded query.
pub enum Response {
    /// The name is blocked: send these bytes back to the client.
    Hit(Vec<u8>),
    /// The name is not blocked: forward the query and remember its ID.
    Miss(u16),
}

/// The synthetic reply to `q` with RCODE `r_code` and time to live `ttl`.
pub open spec fn sinkhole_bytes(q: DNSQueryQuestion, r_code: u8, ttl: u32) -> Seq<u8> {
    DNSQueryAnswer {
        message_id: q.message_id,
        op_code: q.op_code,
        is_recursion_desired: q.is_recursive,
        r_code,
        q_name_array: q.q_name_array,
        q_type: q.q_type,
        q_class: q.q_class,
        ttl,
        udp_payload_size: q.udp_payload_size,
    }.spec_bytes()
}

/// What the service does with `q` while `names` is its block-list.
pub open spec fn response_for(names: Set<Seq<u8>>, q: DNSQueryQuestion, r_code: u8, ttl: u32) -> (
    bool,
    Seq<u8>,
    u16,
) {
    if blocks(names, labels_view(q.q_name_array@)) {
        (true, sinkhole_bytes(q, r_code, ttl), 0)
    } else {
        (false, seq![], q.message_id)
    }
}

/// `r` in the form that `response_for` gives.
pub open spec fn response_view(r: Response) -> (bool, Seq<u8>, u16) {
    match r {
        Response::Hit(b) => (true, b@, 0),
        Response::Miss(id) => (false, seq![], id),
    }
}

/// The block-list that the queries see; replaced whole, never edited in place.
pub struct BlockStore {
    current: BlockList,
}

impl View for BlockStore {
    type V = Set<Seq<u8>>;

    closed spec fn view(&self) -> Set<Seq<u8>> {
        self.current@
    }
}

impl BlockStore {
    pub closed spec fn wf(&self) -> bool {
        self.current.wf()
    }

    /// A store holding `list`.
    pub fn new(list: BlockList) -> (r: Self)
        requires
            list.wf(),
        ensures
            r.wf(),
            r@ == list@,
    {
        BlockStore { current: list }
    }

    /// Whether the name made of `labels` is blocked.
    pub fn contains(&self, labels: &Vec<Vec<u8>>) -> (r: bool)
        ensures
            r == blocks(self@, labels_view(labels@)),
    {
        self.current.blocks_labels(labels)
    }

    /// The list as it stands, for the length of a lookup.
    pub fn snapshot(&self) -> (r: &BlockList)
        ensures
            r@ == self@,
            self.wf() ==> r.wf(),
    {
        &self.current
    }

    /// Installs `next` whole and hands back the list it replaces.
    pub fn replace(&mut self, next: BlockList) -> (r: BlockList)
        requires
            old(self).wf(),
            next.wf(),
        ensures
            final(self).wf(),
            final(self)@ == next@,
            r@ == old(self)@,
    {
        let mut other = next;
        core::mem::swap(&mut self.current, &mut other);
        other
    }
}

/// The query service: the block-list and how blocked names are answered. `S` is the
/// construction state; `H` the handle of the refresher task.
pub struct QueryService<S, H> {
    db_file_path: String,
    store: BlockStore,
    update_handle: Option<H>,
    r_code: u8,
    ttl: u32,
    cache: ReplyCache,
    state: S,
}

impl<S, H> QueryService<S, H> {
    pub closed spec fn wf(&self) -> bool {
        self.store.wf() && self.r_code < 16
    }

    /// The names that the service blocks.
    pub closed spec fn names(&self) -> Set<Seq<u8>> {
        self.store@
    }

    pub closed spec fn spec_r_code(&self) -> u8 {
        self.r_code
    }

    pub closed spec fn spec_ttl(&self) -> u32 {
        self.ttl
    }

    pub closed spec fn spec_update_handle(&self) -> Option<H> {
        self.update_handle
    }

    pub closed spec fn spec_cache(&self) -> &ReplyCache {
        &self.cache
    }

    pub closed spec fn spec_db_file_path(&self) -> Seq<char> {
        self.db_file_path@
    }

    /// The replies kept for reuse.
    pub fn cache(&self) -> (r: &ReplyCache)
        ensures
            r == self.spec_cache(),
    {
        &self.cache
    }

    /// Where the seed block-list is read from.
    pub fn db_file_path(&self) -> (r: &String)
        ensures
            r@ == self.spec_db_file_path(),
    {
        &self.db_file_path
    }
}

impl<H> QueryService<NotIndexed, H> {
    /// A service that reads its seed block-list from `db_file_path` and answers blocked
    /// names with 0.0.0.0 or :: for 300 seconds.
    pub fn new(db_file_path: String) -> (r: Self)
        ensures
            r.wf(),
            r.names() == Set::<Seq<u8>>::empty(),
            r.spec_r_code() == RCODE_NOERROR,
            r.spec_ttl() == DEFAULT_TTL,
            r.spec_update_handle() == None::<H>,
            r.spec_db_file_path() == db_file_path@,
            forall|k: (Seq<u8>, u16, u16)| r.spec_cache().spec_get(k) == None::<Seq<u8>>,
    {
        QueryService {
            db_file_path,
            store: BlockStore::new(BlockList::new()),
            update_handle: None,
            r_code: RCODE_NOERROR,
            ttl: DEFAULT_TTL,
            cache: ReplyCache::new(),
            state: NotIndexed,
        }
    }

    /// The same service, answering blocked names with RCODE `r_code` and time to live `ttl`.
    pub fn with_reply(self, r_code: u8, ttl: u32) -> (r: Self)
        requires
            self.wf(),
            r_code < 16,
        ensures
            r.wf(),
            r.names() == self.names(),
            r.spec_r_code() == r_code,
            r.spec_ttl() == ttl,
            r.spec_update_handle() == self.spec_update_handle(),
            r.spec_db_file_path() == self.spec_db_file_path(),
            r.spec_cache() == self.spec_cache(),
    {
        QueryService { r_code, ttl, ..self }
    }

    /// Loads the seed block-list from the text of the seed file.
    pub fn index_db(self, seed: &[u8]) -> (r: QueryService<NotRegisteredForPeriodicUpdate, H>)
        requires
            self.wf(),
        ensures
            r.wf(),
            r.names() == crate::block_list::entries_of(seed@),
            r.spec_r_code() == self.spec_r_code(),
            r.spec_ttl() == self.spec_ttl(),
            r.spec_update_handle() == self.spec_update_handle(),
            r.spec_db_file_path() == self.spec_db_file_path(),
            r.spec_cache() == self.spec_cache(),
    {
        let list = parse_block_list(seed);
        QueryService {
            db_file_path: self.db_file_path,
            store: BlockStore::new(list),
            update_handle: self.update_handle,
            r_code: self.r_code,
            ttl: self.ttl,
            cache: self.cache,
            state: NotRegisteredForPeriodicUpdate,
        }
    }
}

impl<H> QueryService<NotRegisteredForPeriodicUpdate, H> {
    /// Takes the handle of the refresher task that keeps the block-list up to date.
    pub fn register_for_periodic_update(self, handle: H) -> (r: QueryService<Ready, H>)
        requires
            self.wf(),
        ensures
            r.wf(),
            r.names() == self.names(),
            r.spec_r_code() == self.spec_r_code(),
            r.spec_ttl() == self.spec_ttl(),
            r.spec_update_handle() == Some(handle),
            r.spec_db_file_path() == self.spec_db_file_path(),
            r.spec_cache() == self.spec_cache(),
    {
        QueryService {
            db_file_path: self.db_file_path,
            store: self.store,
            update_handle: Some(handle),
            r_code: self.r_code,
            ttl: self.ttl,
            cache: self.cache,
            state: Ready,
        }
    }
}

impl<H> QueryService<Ready, H> {
    /// Answers a decoded query: the synthetic reply where its name is blocked, its ID
    /// where the query must be forwarded.
    pub fn process_query(&self, q: &DNSQueryQuestion) -> (r: Response)
        requires
            self.wf(),
            q.wf(),
        ensures
            response_view(r) == response_for(self.names(), *q, self.spec_r_code(), self.spec_ttl()),
    {
        if self.store.contains(&q.q_name_array) {
            let answer = DNSQueryAnswer::sinkhole(q, self.r_code, self.ttl);
            let bytes = answer.encode();
            Response::Hit(bytes)
        } else {
            Response::Miss(q.message_id)
        }
    }

    /// Decodes a client datagram and answers it.
    pub fn process_bytes(&self, input_bytes: &[u8]) -> (r: Result<Response, DecodeError>)
        requires
            self.wf(),
        ensures
            match r {
                Ok(resp) => decode_outcome(input_bytes@) == Ok::<(), DecodeError>(()) && exists|
                    q: DNSQueryQuestion,
                |
                    q.decodes_from(input_bytes@) && response_view(resp) == response_for(
                        self.names(),
                        q,
                        self.spec_r_code(),
                        self.spec_ttl(),
                    ),
                Err(e) => decode_outcome(input_bytes@) == Err::<(), DecodeError>(e),
            },
    {
        match DNSQueryQuestion::try_from(input_bytes) {
            Ok(q) => {
                proof {
                    lemma_decoded_wf(input_bytes@, q);
                }
                Ok(self.process_query(&q))
            },
            Err(e) => Err(e),
        }
    }

    /// Installs a fresh block-list whole; lookups from then on see only the new one.
    pub fn update_db(&mut self, new_db: BlockList) -> (r: BlockList)
        requires
            old(self).wf(),
            new_db.wf(),
        ensures
            final(self).wf(),
            final(self).names() == new_db@,
            r@ == old(self).names(),
            final(self).spec_r_code() == old(self).spec_r_code(),
            final(self).spec_ttl() == old(self).spec_ttl(),
            final(self).spec_update_handle() == old(self).spec_update_handle(),
    {
        self.store.replace(new_db)
    }

    /// Hands the refresher's handle out to be supervised; only the first call gets it.
    pub fn gib_update_task_handle(&mut self) -> (r: Option<H>)
        ensures
            r == old(self).spec_update_handle(),
            final(self).spec_update_handle() == None::<H>,
            final(self).wf() == old(self).wf(),
            final(self).names() == old(self).names(),
            final(self).spec_r_code() == old(self).spec_r_code(),
            final(self).spec_ttl() == old(self).spec_ttl(),
    {
        self.update_handle.take()
    }
}

} // verus!
