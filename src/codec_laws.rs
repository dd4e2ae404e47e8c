use vstd::prelude::*;

use crate::answer::{labels_bytes, name_bytes, question_bytes, u16_bytes, valid_labels};
use crate::question::{
    be16, decode_outcome, labels_view, name_from, question_name, DNSQueryQuestion, DecodeError,
    HEADER_LEN, MAX_LABEL_LEN, MAX_NAME_LEN,
};

verus! {

/// Whether the name at `pos` is written out in full, with no compression pointer.
pub open spec fn plain_name_at(b: Seq<u8>, pos: int) -> bool
    decreases b.len() - pos,
{
    &&& 0 <= pos < b.len()
    &&& (b[pos] == 0 || (b[pos] <= MAX_LABEL_LEN && pos + 1 + b[pos] <= b.len() && plain_name_at(
        b,
        pos + 1 + b[pos],
    )))
}

/// The wire form of names concatenates.
pub proof fn lemma_labels_bytes_append(a: Seq<Seq<u8>>, c: Seq<Seq<u8>>)
    ensures
        labels_bytes(a + c) == labels_bytes(a) + labels_bytes(c),
    decreases c.len(),
{
    if c.len() == 0 {
        assert(a + c =~= a);
        assert(labels_bytes(a) + labels_bytes(c) =~= labels_bytes(a));
    } else {
        lemma_labels_bytes_append(a, c.drop_last());
        assert((a + c).drop_last() =~= a + c.drop_last());
        assert((a + c).last() == c.last());
        assert(labels_bytes(a + c) =~= labels_bytes(a) + labels_bytes(c));
    }
}

/// The wire form of a name whose first label is `label`.
pub proof fn lemma_labels_bytes_cons(label: Seq<u8>, rest: Seq<Seq<u8>>)
    ensures
        labels_bytes(seq![label] + rest) == seq![label.len() as u8] + label + labels_bytes(rest),
{
    lemma_labels_bytes_append(seq![label], rest);
    assert(seq![label].drop_last() =~= Seq::<Seq<u8>>::empty());
    assert(labels_bytes(Seq::<Seq<u8>>::empty()) =~= Seq::<u8>::empty());
    assert(seq![label].last() == label);
    assert(labels_bytes(seq![label]) =~= seq![label.len() as u8] + label);
    assert(labels_bytes(seq![label]) + labels_bytes(rest) =~= seq![label.len() as u8] + label
        + labels_bytes(rest));
}

/// Every name that parses has labels of 1 to 63 bytes and, with the `used` bytes before
/// it, takes at most 255 bytes on the wire.
pub proof fn lemma_name_within_bounds(b: Seq<u8>, pos: int, hops: int, used: int)
    requires
        0 <= used,
        used + 1 <= MAX_NAME_LEN,
    ensures
        name_from(b, pos, hops, used) matches Ok((ls, _)) ==> {
            &&& used + name_bytes(ls).len() <= MAX_NAME_LEN
            &&& forall|i: int| 0 <= i < ls.len() ==> 1 <= #[trigger] ls[i].len() <= MAX_LABEL_LEN
        },
    decreases crate::question::MAX_POINTER_HOPS - hops, b.len() - pos,
{
    if 0 <= pos < b.len() {
        let l = b[pos];
        if l == 0 {
            assert(name_bytes(seq![]) =~= seq![0u8]);
        } else if l >= 192 {
            if pos + 1 < b.len() && hops < crate::question::MAX_POINTER_HOPS {
                let target = (l - 192) * 256 + b[pos + 1];
                lemma_name_within_bounds(b, target, hops + 1, used);
            }
        } else if l <= MAX_LABEL_LEN && used + l + 2 <= MAX_NAME_LEN && pos + 1 + l <= b.len() {
            let next = pos + 1 + l;
            lemma_name_within_bounds(b, next, hops, used + l + 1);
            if let Ok((rest, _)) = name_from(b, next, hops, used + l + 1) {
                let label = b.subrange(pos + 1, next);
                lemma_labels_bytes_cons(label, rest);
                let ls = seq![label] + rest;
                assert forall|i: int| 0 <= i < ls.len() implies 1 <= #[trigger] ls[i].len()
                    <= MAX_LABEL_LEN by {
                    if i > 0 {
                        assert(ls[i] == rest[i - 1]);
                    }
                }
            }
        }
    }
}

/// A name written out in full reads back as the bytes it was read from.
pub proof fn lemma_plain_name_bytes(b: Seq<u8>, pos: int, hops: int, used: int)
    requires
        plain_name_at(b, pos),
    ensures
        name_from(b, pos, hops, used) matches Ok((ls, e)) ==> pos < e <= b.len() && name_bytes(ls)
            == b.subrange(pos, e),
    decreases b.len() - pos,
{
    let l = b[pos];
    if l == 0 {
        assert(name_bytes(seq![]) =~= b.subrange(pos, pos + 1));
    } else if used + l + 2 <= MAX_NAME_LEN {
        let next = pos + 1 + l;
        lemma_plain_name_bytes(b, next, hops, used + l + 1);
        if let Ok((rest, e)) = name_from(b, next, hops, used + l + 1) {
            let label = b.subrange(pos + 1, next);
            lemma_labels_bytes_cons(label, rest);
            assert(name_bytes(seq![label] + rest) =~= seq![l] + label + name_bytes(rest));
            assert(b.subrange(pos, e) =~= seq![l] + label + b.subrange(next, e));
        }
    }
}

/// Two bytes read as a big-endian number are written back as the same two bytes.
pub proof fn lemma_be16_bytes(b: Seq<u8>, i: int)
    requires
        0 <= i,
        i + 1 < b.len(),
    ensures
        u16_bytes(be16(b, i)) == b.subrange(i, i + 2),
{
    let hi = b[i] as int;
    let lo = b[i + 1] as int;
    assert((hi * 256 + lo) / 256 == hi && (hi * 256 + lo) % 256 == lo) by (nonlinear_arith)
        requires
            0 <= hi < 256,
            0 <= lo < 256,
    ;
    assert(u16_bytes(be16(b, i)) =~= b.subrange(i, i + 2));
}

/// Every decoded question is well formed: its name has labels of 1 to 63 bytes and
/// takes at most 255 bytes, and its opcode fits four bits.
pub proof fn lemma_decoded_wf(b: Seq<u8>, q: DNSQueryQuestion)
    requires
        decode_outcome(b) == Ok::<(), DecodeError>(()),
        q.decodes_from(b),
    ensures
        q.wf(),
        valid_labels(labels_view(q.q_name_array@)),
{
    lemma_name_within_bounds(b, HEADER_LEN as int, 0, 0);
    let f = b[2];
    assert((f >> 3u8) & 0x0fu8 < 16) by (bit_vector);
}

/// Encoding the question of a decoded query gives back the bytes of its question
/// section, where the query wrote its name out in full.
pub proof fn lemma_question_round_trip(b: Seq<u8>, q: DNSQueryQuestion)
    requires
        decode_outcome(b) == Ok::<(), DecodeError>(()),
        q.decodes_from(b),
        plain_name_at(b, HEADER_LEN as int),
    ensures
        question_bytes(labels_view(q.q_name_array@), q.q_type, q.q_class) == b.subrange(
            HEADER_LEN as int,
            q.question_end as int,
        ),
{
    let (ls, nend) = question_name(b)->Ok_0;
    lemma_plain_name_bytes(b, HEADER_LEN as int, 0, 0);
    lemma_be16_bytes(b, nend);
    lemma_be16_bytes(b, nend + 2);
    assert(b.subrange(HEADER_LEN as int, nend + 4) =~= b.subrange(HEADER_LEN as int, nend)
        + b.subrange(nend, nend + 2) + b.subrange(nend + 2, nend + 4));
}

} // verus!
