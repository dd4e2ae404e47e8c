use vstd::prelude::*;

use crate::question::{labels_view, DNSQueryQuestion, MAX_LABEL_LEN, MAX_NAME_LEN};

verus! {

/// Largest reply this forwarder ever sends.
pub const MAX_REPLY_LEN: u16 = 4096;

/// Reply size allowed to a client that advertises no EDNS payload size.
pub const DEFAULT_UDP_PAYLOAD: u16 = 512;

/// Time to live of a synthetic answer, in seconds, unless configured otherwise.
pub const DEFAULT_TTL: u32 = 300;

/// RCODE of a successful reply.
pub const RCODE_NOERROR: u8 = 0;

/// RCODE of a reply for a name that does not exist.
pub const RCODE_NXDOMAIN: u8 = 3;

/// Record type A.
pub const TYPE_A: u16 = 1;

/// Record type AAAA.
pub const TYPE_AAAA: u16 = 28;

/// Class IN.
pub const CLASS_IN: u16 = 1;

/// Two bytes, most significant first.
pub open spec fn u16_bytes(v: u16) -> Seq<u8> {
    seq![(v / 256) as u8, (v % 256) as u8]
}

/// Four bytes, most significant first.
pub open spec fn u32_bytes(v: u32) -> Seq<u8> {
    u16_bytes((v / 65536) as u16) + u16_bytes((v % 65536) as u16)
}

/// The labels of a name on the wire, each after its length byte, without the final zero.
pub open spec fn labels_bytes(labels: Seq<Seq<u8>>) -> Seq<u8>
    decreases labels.len(),
{
    if labels.len() == 0 {
        seq![]
    } else {
        labels_bytes(labels.drop_last()) + seq![labels.last().len() as u8] + labels.last()
    }
}

/// A name on the wire, without compression.
pub open spec fn name_bytes(labels: Seq<Seq<u8>>) -> Seq<u8> {
    labels_bytes(labels) + seq![0u8]
}

/// Whether `labels` can stand as one uncompressed name.
pub open spec fn valid_labels(labels: Seq<Seq<u8>>) -> bool {
    &&& forall|i: int| 0 <= i < labels.len() ==> 1 <= #[trigger] labels[i].len() <= MAX_LABEL_LEN
    &&& name_bytes(labels).len() <= MAX_NAME_LEN
}

/// A question section holding one question.
pub open spec fn question_bytes(labels: Seq<Seq<u8>>, q_type: u16, q_class: u16) -> Seq<u8> {
    name_bytes(labels) + u16_bytes(q_type) + u16_bytes(q_class)
}

/// The sinkhole address for a record type: 0.0.0.0 for A, :: for AAAA, nothing otherwise.
pub open spec fn sinkhole_rdata(q_type: u16) -> Seq<u8> {
    if q_type == TYPE_A {
        Seq::new(4, |i: int| 0u8)
    } else if q_type == TYPE_AAAA {
        Seq::new(16, |i: int| 0u8)
    } else {
        seq![]
    }
}

/// The answer record: a pointer to the question name at offset 12, type, class IN, TTL
/// and the sinkhole address.
pub open spec fn answer_record(q_type: u16, ttl: u32) -> Seq<u8> {
    seq![0xc0u8, 0x0cu8] + u16_bytes(q_type) + u16_bytes(CLASS_IN) + u32_bytes(ttl) + u16_bytes(
        sinkhole_rdata(q_type).len() as u16,
    ) + sinkhole_rdata(q_type)
}

/// The synthetic reply to a query for a blocked name.
#[derive(Clone, Debug)]
pub struct DNSQueryAnswer {
    pub message_id: u16,
    pub op_code: u8,
    pub is_recursion_desired: bool,
    pub r_code: u8,
    /// The queried name, echoed.
    pub q_name_array: Vec<Vec<u8>>,
    pub q_type: u16,
    pub q_class: u16,
    pub ttl: u32,
    /// The client's advertised EDNS payload size, if any.
    pub udp_payload_size: Option<u16>,
}

impl DNSQueryAnswer {
    /// Whether the fields fit their wire widths.
    pub open spec fn wf(&self) -> bool {
        &&& self.op_code < 16
        &&& self.r_code < 16
        &&& valid_labels(labels_view(self.q_name_array@))
    }

    /// The queried name, as byte sequences.
    pub open spec fn name(&self) -> Seq<Seq<u8>> {
        labels_view(self.q_name_array@)
    }

    /// Most bytes that the reply may take.
    pub open spec fn size_limit(&self) -> int {
        let advertised = match self.udp_payload_size {
            Some(n) => n,
            None => DEFAULT_UDP_PAYLOAD,
        };
        if advertised < MAX_REPLY_LEN {
            advertised as int
        } else {
            MAX_REPLY_LEN as int
        }
    }

    /// Length of the reply with its answer record.
    pub open spec fn full_len(&self) -> int {
        12 + question_bytes(self.name(), self.q_type, self.q_class).len() as int + answer_record(
            self.q_type,
            self.ttl,
        ).len() as int
    }

    /// Whether the answer record must be left out to respect the size limit.
    pub open spec fn truncated(&self) -> bool {
        self.full_len() > self.size_limit()
    }

    /// The flag word: QR=1, the opcode, TC, RD, RA=1 and the RCODE.
    pub open spec fn flags(&self) -> u16 {
        (0x8000 + self.op_code as int * 0x0800 + (if self.truncated() {
            0x0200int
        } else {
            0
        }) + (if self.is_recursion_desired {
            0x0100int
        } else {
            0
        }) + 0x0080 + self.r_code as int) as u16
    }

    /// The header: ID, flags, one question, one answer unless truncated, nothing else.
    pub open spec fn header_bytes(&self) -> Seq<u8> {
        u16_bytes(self.message_id) + u16_bytes(self.flags()) + u16_bytes(1) + u16_bytes(
            if self.truncated() {
                0
            } else {
                1
            },
        ) + u16_bytes(0) + u16_bytes(0)
    }

    /// The whole reply on the wire.
    pub open spec fn spec_bytes(&self) -> Seq<u8> {
        let body = self.header_bytes() + question_bytes(self.name(), self.q_type, self.q_class);
        if self.truncated() {
            body
        } else {
            body + answer_record(self.q_type, self.ttl)
        }
    }
}

/// Appends `x` in two bytes, most significant first.
pub fn push_u16(v: &mut Vec<u8>, x: u16)
    ensures
        final(v)@ == old(v)@ + u16_bytes(x),
{
    let hi = (x >> 8u16) as u8;
    let lo = (x & 0xffu16) as u8;
    assert(hi == (x / 256) as u8 && lo == (x % 256) as u8) by (bit_vector)
        requires
            hi == (x >> 8u16) as u8,
            lo == (x & 0xffu16) as u8,
    ;
    v.push(hi);
    v.push(lo);
    assert(v@ =~= old(v)@ + u16_bytes(x));
}

/// Appends `x` in four bytes, most significant first.
pub fn push_u32(v: &mut Vec<u8>, x: u32)
    ensures
        final(v)@ == old(v)@ + u32_bytes(x),
{
    push_u16(v, (x / 65536) as u16);
    push_u16(v, (x % 65536) as u16);
    assert(v@ =~= old(v)@ + u32_bytes(x));
}

/// Appends a name without compression.
pub fn push_name(v: &mut Vec<u8>, labels: &Vec<Vec<u8>>)
    requires
        forall|i: int| 0 <= i < labels@.len() ==> #[trigger] labels@[i]@.len() < 256,
    ensures
        final(v)@ == old(v)@ + name_bytes(labels_view(labels@)),
{
    let ghost ls = labels_view(labels@);
    let mut i: usize = 0;
    while i < labels.len()
        invariant
            i <= labels@.len(),
            ls == labels_view(labels@),
            forall|k: int| 0 <= k < labels@.len() ==> #[trigger] labels@[k]@.len() < 256,
            v@ == old(v)@ + labels_bytes(ls.take(i as int)),
        decreases labels@.len() - i,
    {
        let label = &labels[i];
        let ghost before = v@;
        v.push(label.len() as u8);
        let mut j: usize = 0;
        while j < label.len()
            invariant
                j <= label@.len(),
                v@ == before + seq![label@.len() as u8] + label@.take(j as int),
            decreases label@.len() - j,
        {
            v.push(label[j]);
            assert(label@.take(j + 1) =~= label@.take(j as int).push(label@[j as int]));
            j = j + 1;
        }
        assert(label@.take(j as int) =~= label@);
        assert(ls.take(i + 1).drop_last() =~= ls.take(i as int));
        assert(ls.take(i + 1).last() == label@);
        i = i + 1;
    }
    assert(ls.take(i as int) =~= ls);
    v.push(0u8);
    assert(v@ =~= old(v)@ + name_bytes(ls));
}

/// Encodes a question section holding one question.
pub fn encode_question(labels: &Vec<Vec<u8>>, q_type: u16, q_class: u16) -> (r: Vec<u8>)
    requires
        forall|i: int| 0 <= i < labels@.len() ==> #[trigger] labels@[i]@.len() < 256,
    ensures
        r@ == question_bytes(labels_view(labels@), q_type, q_class),
{
    let mut v: Vec<u8> = Vec::new();
    push_name(&mut v, labels);
    push_u16(&mut v, q_type);
    push_u16(&mut v, q_class);
    assert(v@ =~= question_bytes(labels_view(labels@), q_type, q_class));
    v
}

impl DNSQueryAnswer {
    /// The sinkhole reply to `q`, with RCODE `r_code` and time to live `ttl`.
    pub fn sinkhole(q: &DNSQueryQuestion, r_code: u8, ttl: u32) -> (r: Self)
        ensures
            r.message_id == q.message_id,
            r.op_code == q.op_code,
            r.is_recursion_desired == q.is_recursive,
            r.r_code == r_code,
            r.name() == labels_view(q.q_name_array@),
            r.q_type == q.q_type,
            r.q_class == q.q_class,
            r.ttl == ttl,
            r.udp_payload_size == q.udp_payload_size,
    {
        DNSQueryAnswer {
            message_id: q.message_id,
            op_code: q.op_code,
            is_recursion_desired: q.is_recursive,
            r_code,
            q_name_array: copy_labels(&q.q_name_array),
            q_type: q.q_type,
            q_class: q.q_class,
            ttl,
            udp_payload_size: q.udp_payload_size,
        }
    }

    /// The reply on the wire. Where the whole reply would exceed the size limit, TC is
    /// set and the answer record is left out.
    #[verifier::rlimit(40)]
    pub fn encode(&self) -> (r: Vec<u8>)
        requires
            self.wf(),
        ensures
            r@ == self.spec_bytes(),
            r@.len() <= self.size_limit() || self.truncated(),
    {
        assert forall|i: int| 0 <= i < self.q_name_array@.len() implies #[trigger] self.q_name_array@[i]@.len() < 256 by {
            assert(self.name()[i] == self.q_name_array@[i]@);
        }
        let question = encode_question(&self.q_name_array, self.q_type, self.q_class);
        let full_len: usize = 12 + question.len() + 12 + rdata_len(self.q_type) as usize;
        let advertised: u16 = match self.udp_payload_size {
            Some(n) => n,
            None => DEFAULT_UDP_PAYLOAD,
        };
        let limit: u16 = if advertised < MAX_REPLY_LEN {
            advertised
        } else {
            MAX_REPLY_LEN
        };
        let truncated = full_len > limit as usize;
        assert(truncated == self.truncated());
        let flags: u16 = 0x8000u16 + (self.op_code as u16) * 0x0800u16 + (if truncated {
            0x0200u16
        } else {
            0
        }) + (if self.is_recursion_desired {
            0x0100u16
        } else {
            0
        }) + 0x0080u16 + self.r_code as u16;
        assert(flags == self.flags());
        let mut v: Vec<u8> = Vec::new();
        push_u16(&mut v, self.message_id);
        push_u16(&mut v, flags);
        push_u16(&mut v, 1);
        push_u16(
            &mut v,
            if truncated {
                0
            } else {
                1
            },
        );
        push_u16(&mut v, 0);
        push_u16(&mut v, 0);
        assert(v@ =~= self.header_bytes());
        push_bytes(&mut v, &question);
        if !truncated {
            push_answer_record(&mut v, self.q_type, self.ttl);
        }
        v
    }
}

/// Length of the sinkhole address for a record type.
fn rdata_len(q_type: u16) -> (r: u16)
    ensures
        r == sinkhole_rdata(q_type).len(),
{
    if q_type == TYPE_A {
        4
    } else if q_type == TYPE_AAAA {
        16
    } else {
        0
    }
}

/// Appends the bytes of `src`.
pub fn push_bytes(v: &mut Vec<u8>, src: &Vec<u8>)
    ensures
        final(v)@ == old(v)@ + src@,
{
    let mut i: usize = 0;
    while i < src.len()
        invariant
            i <= src@.len(),
            v@ == old(v)@ + src@.take(i as int),
        decreases src@.len() - i,
    {
        v.push(src[i]);
        assert(src@.take(i + 1) =~= src@.take(i as int).push(src@[i as int]));
        i = i + 1;
    }
    assert(src@.take(i as int) =~= src@);
}

/// Appends the answer record for a question of type `q_type`.
fn push_answer_record(v: &mut Vec<u8>, q_type: u16, ttl: u32)
    ensures
        final(v)@ == old(v)@ + answer_record(q_type, ttl),
{
    let len = rdata_len(q_type);
    v.push(0xc0u8);
    v.push(0x0cu8);
    push_u16(v, q_type);
    push_u16(v, CLASS_IN);
    push_u32(v, ttl);
    push_u16(v, len);
    let ghost head = v@;
    let mut k: u16 = 0;
    while k < len
        invariant
            k <= len,
            v@ == head + Seq::new(k as nat, |i: int| 0u8),
        decreases len - k,
    {
        v.push(0u8);
        k = k + 1;
        assert(v@ =~= head + Seq::new(k as nat, |i: int| 0u8));
    }
    assert(Seq::new(k as nat, |i: int| 0u8) =~= sinkhole_rdata(q_type));
    assert(v@ =~= old(v)@ + answer_record(q_type, ttl));
}

/// A copy of a list of labels.
pub fn copy_labels(labels: &Vec<Vec<u8>>) -> (r: Vec<Vec<u8>>)
    ensures
        labels_view(r@) == labels_view(labels@),
{
    let mut r: Vec<Vec<u8>> = Vec::new();
    let mut i: usize = 0;
    while i < labels.len()
        invariant
            i <= labels@.len(),
            labels_view(r@) == labels_view(labels@).take(i as int),
        decreases labels@.len() - i,
    {
        let ghost prev = r@;
        let label = copy_bytes(&labels[i]);
        r.push(label);
        assert(labels_view(r@) =~= labels_view(prev).push(label@));
        assert(labels_view(labels@).take(i + 1) =~= labels_view(labels@).take(i as int).push(
            labels@[i as int]@,
        ));
        i = i + 1;
    }
    assert(labels_view(labels@).take(i as int) =~= labels_view(labels@));
    r
}

/// A copy of a byte string.
pub fn copy_bytes(b: &Vec<u8>) -> (r: Vec<u8>)
    ensures
        r@ == b@,
{
    let mut r: Vec<u8> = Vec::new();
    let mut i: usize = 0;
    while i < b.len()
        invariant
            i <= b@.len(),
            r@ == b@.take(i as int),
        decreases b@.len() - i,
    {
        r.push(b[i]);
        assert(b@.take(i + 1) =~= b@.take(i as int).push(b@[i as int]));
        i = i + 1;
    }
    assert(b@.take(i as int) =~= b@);
    r
}

} // verus!
