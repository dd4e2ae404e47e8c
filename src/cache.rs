use vstd::prelude::*;

use crate::block_list::{bytes_eq, suffix_name, suffix_of};
use crate::question::{labels_view, DNSQueryQuestion};

verus! {

/// What a cached reply is filed under: the lower case name, the type and the class.
pub struct Fingerprint {
    pub name: Vec<u8>,
    pub q_type: u16,
    pub q_class: u16,
}

impl View for Fingerprint {
    type V = (Seq<u8>, u16, u16);

    open spec fn view(&self) -> (Seq<u8>, u16, u16) {
        (self.name@, self.q_type, self.q_class)
    }
}

/// The lower case name of `labels`, dots between the labels.
pub open spec fn fingerprint_name(labels: Seq<Seq<u8>>) -> Seq<u8> {
    if labels.len() == 0 {
        seq![]
    } else {
        suffix_name(labels, 0)
    }
}

impl Fingerprint {
    /// The fingerprint of a question.
    pub fn of(q: &DNSQueryQuestion) -> (r: Self)
        ensures
            r@ == (fingerprint_name(labels_view(q.q_name_array@)), q.q_type, q.q_class),
    {
        let name = if q.q_name_array.len() == 0 {
            Vec::new()
        } else {
            suffix_of(&q.q_name_array, 0)
        };
        Fingerprint { name, q_type: q.q_type, q_class: q.q_class }
    }
}

/// The reply filed under `k` by the first entry of `entries` that has it.
pub open spec fn lookup(entries: Seq<((Seq<u8>, u16, u16), Seq<u8>)>, k: (Seq<u8>, u16, u16)) -> Option<
    Seq<u8>,
>
    decreases entries.len(),
{
    if entries.len() == 0 {
        None
    } else if entries[0].0 == k {
        Some(entries[0].1)
    } else {
        lookup(entries.drop_first(), k)
    }
}

/// Encoded replies filed by fingerprint. Nothing fills it yet: it is where replies that
/// are worth keeping will go.
pub struct ReplyCache {
    entries: Vec<(Fingerprint, Vec<u8>)>,
}

impl ReplyCache {
    pub closed spec fn entries_view(&self) -> Seq<((Seq<u8>, u16, u16), Seq<u8>)> {
        self.entries@.map_values(|e: (Fingerprint, Vec<u8>)| (e.0@, e.1@))
    }

    /// The reply filed under `k`, if any.
    pub open spec fn spec_get(&self, k: (Seq<u8>, u16, u16)) -> Option<Seq<u8>> {
        lookup(self.entries_view(), k)
    }

    /// An empty cache.
    pub fn new() -> (r: Self)
        ensures
            forall|k: (Seq<u8>, u16, u16)| r.spec_get(k) == None::<Seq<u8>>,
    {
        let r = ReplyCache { entries: Vec::new() };
        assert(r.entries_view().len() == 0);
        r
    }

    /// The reply filed under `key`, if any.
    pub fn get(&self, key: &Fingerprint) -> (r: Option<&Vec<u8>>)
        ensures
            match (r, self.spec_get(key@)) {
                (Some(v), Some(w)) => v@ == w,
                (None, None) => true,
                _ => false,
            },
    {
        let ghost s = self.entries_view();
        let mut i: usize = 0;
        assert(s.skip(0) =~= s);
        while i < self.entries.len()
            invariant
                i <= self.entries@.len(),
                s == self.entries_view(),
                lookup(s, key@) == lookup(s.skip(i as int), key@),
            decreases self.entries@.len() - i,
        {
            let e = &self.entries[i];
            assert(s.skip(i as int)[0] == (e.0@, e.1@));
            if bytes_eq(e.0.name.as_slice(), key.name.as_slice()) && e.0.q_type == key.q_type
                && e.0.q_class == key.q_class {
                return Some(&e.1);
            }
            assert(s.skip(i as int).drop_first() =~= s.skip(i + 1));
            i = i + 1;
        }
        None
    }

    /// Files `reply` under `key`; it takes the place of what was filed there before.
    pub fn insert(&mut self, key: Fingerprint, reply: Vec<u8>)
        ensures
            final(self).spec_get(key@) == Some(reply@),
            forall|k: (Seq<u8>, u16, u16)|
                k != key@ ==> #[trigger] final(self).spec_get(k) == old(self).spec_get(k),
    {
        let ghost kv = key@;
        let ghost rv = reply@;
        self.entries.insert(0, (key, reply));
        assert(self.entries_view() =~= seq![(kv, rv)] + old(self).entries_view());
        assert(self.entries_view().drop_first() =~= old(self).entries_view());
    }
}

} // verus!
