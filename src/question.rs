use vstd::prelude::*;
use vstd::slice::{slice_subrange, slice_to_vec};

use crate::q_class::{q_class_code, QClass};
use crate::q_type::{is_known_q_type, q_type_code, QType};

verus! {

/// Length of the fixed DNS header.
pub const HEADER_LEN: usize = 12;

/// Most compression pointers that one name may follow.
pub const MAX_POINTER_HOPS: usize = 32;

/// Most bytes that one encoded name may take, length bytes and terminating zero included.
pub const MAX_NAME_LEN: usize = 255;

/// Longest single label.
pub const MAX_LABEL_LEN: u8 = 63;

/// Record type of the EDNS(0) OPT pseudo-record.
pub const OPT_RR_TYPE: u16 = 41;

/// Why a datagram could not be read as a query.
#[derive(Clone, Copy, Debug, PartialEq, Eq, Structural)]
pub enum DecodeError {
    /// The message ends before a field that it must hold.
    TooShort,
    /// A label longer than 63 bytes, a reserved label kind, or a name over 255 bytes.
    LabelOverflow,
    /// More than 32 compression pointers were followed for one name.
    PointerLoop,
}

/// The big-endian 16-bit number at offset `i`.
pub open spec fn be16(b: Seq<u8>, i: int) -> u16 {
    (b[i] as int * 256 + b[i + 1] as int) as u16
}

/// Labels read so far and the offset just past the name where it is written in the message.
pub type NameParse = Result<(Seq<Seq<u8>>, int), DecodeError>;

/// `r` with `label` put in front of its labels.
pub open spec fn prepend_label(label: Seq<u8>, r: NameParse) -> NameParse {
    match r {
        Ok((ls, e)) => Ok((seq![label] + ls, e)),
        Err(x) => Err(x),
    }
}

/// `r` with its end offset replaced by `end`.
pub open spec fn with_end(r: NameParse, end: int) -> NameParse {
    match r {
        Ok((ls, _)) => Ok((ls, end)),
        Err(x) => Err(x),
    }
}

/// The name that starts at `pos`, having followed `hops` pointers and used `used` bytes.
///
/// A zero byte ends the name. A byte with its two top bits set starts a compression
/// pointer whose 14 low bits give the absolute offset where the name goes on; the name
/// ends, where it is written, after the two pointer bytes. Any other byte is the
/// length of a label that follows it.
pub open spec fn name_from(b: Seq<u8>, pos: int, hops: int, used: int) -> NameParse
    decreases MAX_POINTER_HOPS - hops, b.len() - pos,
{
    if pos < 0 || pos >= b.len() {
        Err(DecodeError::TooShort)
    } else {
        let l = b[pos];
        if l == 0 {
            Ok((seq![], pos + 1))
        } else if l >= 192 {
            if pos + 1 >= b.len() {
                Err(DecodeError::TooShort)
            } else if hops >= MAX_POINTER_HOPS {
                Err(DecodeError::PointerLoop)
            } else {
                let target = (l - 192) * 256 + b[pos + 1];
                with_end(name_from(b, target, hops + 1, used), pos + 2)
            }
        } else if l > MAX_LABEL_LEN {
            Err(DecodeError::LabelOverflow)
        } else if used + l + 2 > MAX_NAME_LEN {
            Err(DecodeError::LabelOverflow)
        } else if pos + 1 + l > b.len() {
            Err(DecodeError::TooShort)
        } else {
            prepend_label(
                b.subrange(pos + 1, pos + 1 + l),
                name_from(b, pos + 1 + l, hops, used + l + 1),
            )
        }
    }
}

/// The question name of a message, read from offset 12.
pub open spec fn question_name(b: Seq<u8>) -> NameParse {
    name_from(b, HEADER_LEN as int, 0, 0)
}

/// Whether `b` decodes, and with which error it does not.
pub open spec fn decode_outcome(b: Seq<u8>) -> Result<(), DecodeError> {
    if b.len() < HEADER_LEN {
        Err(DecodeError::TooShort)
    } else {
        match question_name(b) {
            Err(e) => Err(e),
            Ok((_, e)) => if e + 4 > b.len() {
                Err(DecodeError::TooShort)
            } else {
                Ok(())
            },
        }
    }
}

/// The payload size advertised by an OPT record that directly follows the question
/// at `qend`, where the message announces additional records and the record is whole.
pub open spec fn opt_payload(b: Seq<u8>, qend: int) -> Option<u16> {
    if be16(b, 10) > 0 && qend + 11 <= b.len() && b[qend] == 0 && be16(b, qend + 1)
        == OPT_RR_TYPE && qend + 11 + be16(b, qend + 9) <= b.len() {
        Some(be16(b, qend + 3))
    } else {
        None
    }
}

/// Offset just past the region that the decoder reads.
pub open spec fn parsed_end(b: Seq<u8>, qend: int) -> int {
    if opt_payload(b, qend).is_some() {
        qend + 11 + be16(b, qend + 9)
    } else {
        qend
    }
}

/// The labels of a name, as byte sequences.
pub open spec fn labels_view(v: Seq<Vec<u8>>) -> Seq<Seq<u8>> {
    v.map_values(|l: Vec<u8>| l@)
}

/// A letter, a digit, `-` or `_`: the bytes that host name labels are made of.
pub open spec fn is_label_byte(c: u8) -> bool {
    (0x61 <= c <= 0x7a) || (0x41 <= c <= 0x5a) || (0x30 <= c <= 0x39) || c == 0x2d || c == 0x5f
}

/// Whether some label holds a byte that host names do not use.
pub open spec fn has_unusual_bytes(labels: Seq<Seq<u8>>) -> bool {
    exists|i: int, j: int|
        0 <= i < labels.len() && 0 <= j < labels[i].len() && !is_label_byte(#[trigger] labels[i][j])
}

/// Whether some label holds a byte that host names do not use.
pub fn labels_have_unusual_bytes(labels: &Vec<Vec<u8>>) -> (r: bool)
    ensures
        r == has_unusual_bytes(labels_view(labels@)),
{
    let ghost ls = labels_view(labels@);
    let mut i: usize = 0;
    while i < labels.len()
        invariant
            i <= labels@.len(),
            ls == labels_view(labels@),
            forall|a: int, j: int|
                0 <= a < i && 0 <= j < ls[a].len() ==> is_label_byte(#[trigger] ls[a][j]),
        decreases labels@.len() - i,
    {
        let label = &labels[i];
        assert(ls[i as int] == label@);
        let mut j: usize = 0;
        while j < label.len()
            invariant
                j <= label@.len(),
                i < labels@.len(),
                ls == labels_view(labels@),
                ls[i as int] == label@,
                forall|a: int, k: int|
                    0 <= a < i && 0 <= k < ls[a].len() ==> is_label_byte(#[trigger] ls[a][k]),
                forall|k: int| 0 <= k < j ==> is_label_byte(#[trigger] label@[k]),
            decreases label@.len() - j,
        {
            let c = label[j];
            if !(0x61 <= c && c <= 0x7a || 0x41 <= c && c <= 0x5a || 0x30 <= c && c <= 0x39 || c
                == 0x2d || c == 0x5f) {
                assert(!is_label_byte(ls[i as int][j as int]));
                return true;
            }
            j = j + 1;
        }
        i = i + 1;
    }
    false
}

/// A decoded DNS query: the header and its single question.
#[derive(Clone, Debug)]
pub struct DNSQueryQuestion {
    pub message_id: u16,
    /// QR bit clear.
    pub is_query: bool,
    pub op_code: u8,
    pub is_truncated: bool,
    /// RD bit.
    pub is_recursive: bool,
    pub num_of_questions: u16,
    /// Answer record count.
    pub num_of_arr: u16,
    /// Authority record count.
    pub num_of_ar: u16,
    pub num_of_additional_rrs: u16,
    /// The labels of the queried name, in wire order.
    pub q_name_array: Vec<Vec<u8>>,
    pub q_type: u16,
    pub q_class: u16,
    /// Offset just past the question section.
    pub question_end: usize,
    /// UDP payload size from an OPT record, where one was found.
    pub udp_payload_size: Option<u16>,
    /// Bytes after the region that was read.
    pub trailing_bytes: usize,
    /// Some label holds a byte other than a letter, a digit, `-` or `_`; the labels are
    /// kept as they came.
    pub unusual_label_bytes: bool,
}

impl DNSQueryQuestion {
    /// What decoding `b` yields when it succeeds.
    pub open spec fn decodes_from(&self, b: Seq<u8>) -> bool {
        let (labels, nend) = question_name(b)->Ok_0;
        let qend = nend + 4;
        &&& self.message_id == be16(b, 0)
        &&& self.is_query == (b[2] & 0x80u8 == 0)
        &&& self.op_code == (b[2] >> 3u8) & 0x0fu8
        &&& self.is_truncated == (b[2] & 0x02u8 != 0)
        &&& self.is_recursive == (b[2] & 0x01u8 != 0)
        &&& self.num_of_questions == be16(b, 4)
        &&& self.num_of_arr == be16(b, 6)
        &&& self.num_of_ar == be16(b, 8)
        &&& self.num_of_additional_rrs == be16(b, 10)
        &&& labels_view(self.q_name_array@) == labels
        &&& self.q_type == be16(b, nend)
        &&& self.q_class == be16(b, nend + 2)
        &&& self.question_end == qend
        &&& self.udp_payload_size == opt_payload(b, qend)
        &&& self.trailing_bytes == b.len() - parsed_end(b, qend)
        &&& self.unusual_label_bytes == has_unusual_bytes(labels)
    }

    /// The opcode fits its four bits and the name can stand in a reply.
    pub open spec fn wf(&self) -> bool {
        &&& self.op_code < 16
        &&& crate::answer::valid_labels(labels_view(self.q_name_array@))
    }

    /// The record type asked for, where it is one that this library knows.
    pub fn q_type(&self) -> (r: Option<QType>)
        ensures
            r.is_some() <==> is_known_q_type(self.q_type),
            r matches Some(t) ==> q_type_code(t) == self.q_type,
    {
        QType::from_u16(self.q_type)
    }

    /// The class asked for, where it is one that this library knows.
    pub fn q_class(&self) -> (r: Option<QClass>)
        ensures
            r.is_some() <==> 1 <= self.q_class <= 4,
            r matches Some(c) ==> q_class_code(c) == self.q_class,
    {
        QClass::from_u16(self.q_class)
    }
}

impl DNSQueryQuestion {
    /// Decodes the header and the question of a query message.
    ///
    /// Bytes after the question, and after an OPT record that directly follows it, are
    /// counted in `trailing_bytes` and otherwise ignored.
    #[verifier::rlimit(40)]
    pub fn try_from(bytes: &[u8]) -> (r: Result<Self, DecodeError>)
        ensures
            match r {
                Ok(q) => decode_outcome(bytes@) == Ok::<(), DecodeError>(()) && q.decodes_from(
                    bytes@,
                ),
                Err(e) => decode_outcome(bytes@) == Err::<(), DecodeError>(e),
            },
    {
        if bytes.len() < HEADER_LEN {
            return Err(DecodeError::TooShort);
        }
        let message_id = read_be16(bytes, 0);
        let flags = bytes[2];
        let num_of_questions = read_be16(bytes, 4);
        let num_of_arr = read_be16(bytes, 6);
        let num_of_ar = read_be16(bytes, 8);
        let num_of_additional_rrs = read_be16(bytes, 10);
        let (q_name_array, name_end) = match decode_name(bytes, HEADER_LEN) {
            Ok(x) => x,
            Err(e) => return Err(e),
        };
        if name_end > bytes.len() - 4 {
            return Err(DecodeError::TooShort);
        }
        let q_type = read_be16(bytes, name_end);
        let q_class = read_be16(bytes, name_end + 2);
        let question_end = name_end + 4;
        let mut udp_payload_size: Option<u16> = None;
        let mut end = question_end;
        if num_of_additional_rrs > 0 && bytes.len() >= 11 && question_end <= bytes.len() - 11
            && bytes[question_end] == 0 && read_be16(bytes, question_end + 1) == OPT_RR_TYPE {
            let rd_len = read_be16(bytes, question_end + 9) as usize;
            if rd_len <= bytes.len() - question_end - 11 {
                udp_payload_size = Some(read_be16(bytes, question_end + 3));
                end = question_end + 11 + rd_len;
            }
        }
        let unusual_label_bytes = labels_have_unusual_bytes(&q_name_array);
        Ok(DNSQueryQuestion {
            message_id,
            is_query: flags & 0x80u8 == 0,
            op_code: (flags >> 3u8) & 0x0fu8,
            is_truncated: flags & 0x02u8 != 0,
            is_recursive: flags & 0x01u8 != 0,
            num_of_questions,
            num_of_arr,
            num_of_ar,
            num_of_additional_rrs,
            q_name_array,
            q_type,
            q_class,
            question_end,
            udp_payload_size,
            trailing_bytes: bytes.len() - end,
            unusual_label_bytes,
        })
    }
}

/// The query part of a message: the header fields and the question, without the ID.
#[derive(Clone, Debug)]
pub struct DNSQuery {
    pub op_code: u8,
    pub is_truncated: bool,
    pub is_recursive: bool,
    pub num_of_questions: u16,
    pub num_of_arr: u16,
    pub num_of_ar: u16,
    pub num_of_additional_rrs: u16,
    pub q_name_array: Vec<Vec<u8>>,
    pub q_type: u16,
    pub q_class: u16,
}

impl DNSQuery {
    /// Whether this is the query part of the question decoded from `b`.
    pub open spec fn decodes_from(&self, b: Seq<u8>) -> bool {
        let (labels, nend) = question_name(b)->Ok_0;
        &&& self.op_code == (b[2] >> 3u8) & 0x0fu8
        &&& self.is_truncated == (b[2] & 0x02u8 != 0)
        &&& self.is_recursive == (b[2] & 0x01u8 != 0)
        &&& self.num_of_questions == be16(b, 4)
        &&& self.num_of_arr == be16(b, 6)
        &&& self.num_of_ar == be16(b, 8)
        &&& self.num_of_additional_rrs == be16(b, 10)
        &&& labels_view(self.q_name_array@) == labels
        &&& self.q_type == be16(b, nend)
        &&& self.q_class == be16(b, nend + 2)
    }
}

/// Decodes a query message and keeps its query part.
pub fn get_query_from_bytes(bytes: &[u8]) -> (r: Result<DNSQuery, DecodeError>)
    ensures
        match r {
            Ok(q) => decode_outcome(bytes@) == Ok::<(), DecodeError>(()) && q.decodes_from(bytes@),
            Err(e) => decode_outcome(bytes@) == Err::<(), DecodeError>(e),
        },
{
    match DNSQueryQuestion::try_from(bytes) {
        Ok(q) => Ok(
            DNSQuery {
                op_code: q.op_code,
                is_truncated: q.is_truncated,
                is_recursive: q.is_recursive,
                num_of_questions: q.num_of_questions,
                num_of_arr: q.num_of_arr,
                num_of_ar: q.num_of_ar,
                num_of_additional_rrs: q.num_of_additional_rrs,
                q_name_array: q.q_name_array,
                q_type: q.q_type,
                q_class: q.q_class,
            },
        ),
        Err(e) => Err(e),
    }
}

/// Checks that a message decodes as a query.
pub fn decode_some_bytes(bytes: &[u8]) -> (r: Result<(), DecodeError>)
    ensures
        r == decode_outcome(bytes@),
{
    match DNSQueryQuestion::try_from(bytes) {
        Ok(_) => Ok(()),
        Err(e) => Err(e),
    }
}

/// The big-endian 16-bit number at offset `i`.
pub fn read_be16(b: &[u8], i: usize) -> (r: u16)
    requires
        i + 1 < b@.len(),
    ensures
        r == be16(b@, i as int),
{
    let hi = b[i];
    let lo = b[i + 1];
    proof {
        assert(((hi as u16) << 8u16) | (lo as u16) == (hi as int * 256 + lo as int) as u16)
            by (bit_vector);
    }
    ((hi as u16) << 8u16) | (lo as u16)
}

proof fn lemma_prepend_lift(pre: Seq<Seq<u8>>, label: Seq<u8>, r: NameParse, end: Option<usize>)
    ensures
        lift_name(pre, prepend_label(label, r), end) == lift_name(pre.push(label), r, end),
{
    if let Ok((ls, e)) = r {
        assert(pre + (seq![label] + ls) =~= pre.push(label) + ls);
    }
}

/// `r` seen from the start of the name: `pre` are the labels already read, and `end`
/// the end offset already fixed by a first pointer.
pub open spec fn lift_name(pre: Seq<Seq<u8>>, r: NameParse, end: Option<usize>) -> NameParse {
    match r {
        Ok((ls, e)) => Ok(
            (
                pre + ls,
                match end {
                    Some(x) => x as int,
                    None => e,
                },
            ),
        ),
        Err(x) => Err(x),
    }
}

/// Reads the name that starts at `start`, following compression pointers.
#[verifier::rlimit(40)]
pub fn decode_name(b: &[u8], start: usize) -> (r: Result<(Vec<Vec<u8>>, usize), DecodeError>)
    ensures
        match (r, name_from(b@, start as int, 0, 0)) {
            (Ok((ls, e)), Ok((sls, se))) => labels_view(ls@) == sls && e == se,
            (Err(x), Err(sx)) => x == sx,
            _ => false,
        },
{
    let mut pos: usize = start;
    let mut hops: usize = 0;
    let mut used: usize = 0;
    let mut end: Option<usize> = None;
    let mut labels: Vec<Vec<u8>> = Vec::new();
    assert(labels_view(labels@) + seq![] =~= seq![]);
    assert(name_from(b@, start as int, 0, 0) == lift_name(
        labels_view(labels@),
        name_from(b@, pos as int, hops as int, used as int),
        end,
    )) by {
        let r = name_from(b@, start as int, 0, 0);
        if let Ok((ls, e)) = r {
            assert(labels_view(labels@) + ls =~= ls);
        }
    }
    // Each pointer spends one of the 32 hops and each label at least two of the 255
    // name bytes, so the loop ends within 32 + 255 rounds whatever the input.
    loop
        invariant
            hops <= MAX_POINTER_HOPS,
            used + 1 <= MAX_NAME_LEN,
            end matches Some(x) ==> x <= b@.len(),
            name_from(b@, start as int, 0, 0) == lift_name(
                labels_view(labels@),
                name_from(b@, pos as int, hops as int, used as int),
                end,
            ),
        decreases (MAX_POINTER_HOPS - hops) + (MAX_NAME_LEN - used),
    {
        if pos >= b.len() {
            return Err(DecodeError::TooShort);
        }
        let l = b[pos];
        if l == 0 {
            let e = match end {
                Some(x) => x,
                None => pos + 1,
            };
            return Ok((labels, e));
        } else if l >= 192 {
            if pos + 1 >= b.len() {
                return Err(DecodeError::TooShort);
            }
            if hops >= MAX_POINTER_HOPS {
                return Err(DecodeError::PointerLoop);
            }
            let target: usize = ((l - 192) as usize) * 256 + (b[pos + 1] as usize);
            proof {
                let inner = name_from(b@, target as int, hops + 1, used as int);
                let pre = labels_view(labels@);
                match inner {
                    Ok((ls, e)) => {},
                    Err(x) => {},
                }
                if end.is_none() {
                    assert(lift_name(pre, with_end(inner, pos + 2), end) == lift_name(
                        pre,
                        inner,
                        Some((pos + 2) as usize),
                    ));
                } else {
                    assert(lift_name(pre, with_end(inner, pos + 2), end) == lift_name(
                        pre,
                        inner,
                        end,
                    ));
                }
            }
            if end.is_none() {
                end = Some(pos + 2);
            }
            pos = target;
            hops = hops + 1;
        } else if l > MAX_LABEL_LEN {
            return Err(DecodeError::LabelOverflow);
        } else if used + (l as usize) + 2 > MAX_NAME_LEN {
            return Err(DecodeError::LabelOverflow);
        } else if (l as usize) > b.len() - pos - 1 {
            return Err(DecodeError::TooShort);
        } else {
            let next = pos + 1 + (l as usize);
            let label = slice_to_vec(slice_subrange(b, pos + 1, next));
            proof {
                lemma_prepend_lift(
                    labels_view(labels@),
                    label@,
                    name_from(b@, next as int, hops as int, used + l + 1),
                    end,
                );
            }
            let ghost prev = labels@;
            labels.push(label);
            assert(labels_view(labels@) =~= labels_view(prev).push(label@));
            used = used + (l as usize) + 1;
            pos = next;
        }
    }
}

} // verus!
