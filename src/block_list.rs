use std::collections::HashMap;
use vstd::prelude::*;
use vstd::slice::slice_subrange;

verus! {

broadcast use vstd::std_specs::hash::group_hash_axioms;

/// Whether `c` may stand in a host name entry: a letter, a digit, `-`, `_` or `.`.
pub open spec fn is_host_byte(c: u8) -> bool {
    (0x61 <= c <= 0x7a) || (0x41 <= c <= 0x5a) || (0x30 <= c <= 0x39) || c == 0x2d || c == 0x5f
        || c == 0x2e
}

/// Space, tab or carriage return.
pub open spec fn is_blank(c: u8) -> bool {
    c == 0x20 || c == 0x09 || c == 0x0d
}

/// `c` with ASCII upper case letters made lower case.
pub open spec fn lower_byte(c: u8) -> u8 {
    if 0x41 <= c <= 0x5a {
        (c + 32) as u8
    } else {
        c
    }
}

/// `s` in ASCII lower case.
pub open spec fn lower(s: Seq<u8>) -> Seq<u8> {
    s.map_values(|c: u8| lower_byte(c))
}

/// A name as the block-list compares it: lower case, without one trailing dot.
pub open spec fn normalize(s: Seq<u8>) -> Seq<u8> {
    let l = lower(s);
    if l.len() > 0 && l.last() == 0x2e {
        l.drop_last()
    } else {
        l
    }
}

/// First index at or after `i` that does not hold a host byte.
pub open spec fn host_run_end(t: Seq<u8>, i: int) -> int
    decreases t.len() - i,
{
    if 0 <= i < t.len() && is_host_byte(t[i]) {
        host_run_end(t, i + 1)
    } else {
        i
    }
}

/// First index at or after `i` that is not blank, or `t.len()`.
pub open spec fn blank_run_end(t: Seq<u8>, i: int) -> int
    decreases t.len() - i,
{
    if 0 <= i < t.len() && is_blank(t[i]) {
        blank_run_end(t, i + 1)
    } else {
        i
    }
}

/// Last index down from `j`, not below `lo`, such that `t[j - 1]` is not blank.
pub open spec fn blank_run_start(t: Seq<u8>, lo: int, j: int) -> int
    decreases j - lo,
{
    if lo < j <= t.len() && is_blank(t[j - 1]) {
        blank_run_start(t, lo, j - 1)
    } else {
        j
    }
}

/// `t` without leading and trailing blanks.
pub open spec fn trim(t: Seq<u8>) -> Seq<u8> {
    let a = blank_run_end(t, 0);
    t.subrange(a, blank_run_start(t, a, t.len() as int))
}

/// The name that one line of a block-list stands for, if any.
///
/// Blank lines and lines that start with `!`, `#` or `[` hold none. A filter `||host`
/// or `||host^...` stands for `host`. A line made of host bytes, or of `*.` and host
/// bytes, stands for itself. Anything else is a filter that no host suffix expresses.
pub open spec fn line_entry(line: Seq<u8>) -> Option<Seq<u8>> {
    let t = trim(line);
    let raw = if t.len() == 0 || t[0] == 0x21 || t[0] == 0x23 || t[0] == 0x5b {
        None
    } else if t.len() >= 2 && t[0] == 0x7c && t[1] == 0x7c {
        let k = host_run_end(t, 2);
        if k > 2 && (k == t.len() || t[k] == 0x5e) {
            Some(t.subrange(2, k))
        } else {
            None
        }
    } else if host_run_end(t, 0) == t.len() {
        Some(t)
    } else if t.len() > 2 && t[0] == 0x2a && t[1] == 0x2e && host_run_end(t, 2) == t.len() {
        Some(t)
    } else {
        None
    };
    match raw {
        Some(n) => if normalize(n).len() > 0 {
            Some(normalize(n))
        } else {
            None
        },
        None => None,
    }
}

/// Whether `t[s..e]` is one line of `t`: it holds no line feed, and a line feed or the
/// end of `t` stands on each side.
pub open spec fn is_line(t: Seq<u8>, s: int, e: int) -> bool {
    &&& 0 <= s <= e <= t.len()
    &&& (s == 0 || t[s - 1] == 0x0a)
    &&& (e == t.len() || t[e] == 0x0a)
    &&& forall|k: int| s <= k < e ==> t[k] != 0x0a
}

/// The names that a block-list text stands for.
pub open spec fn entries_of(t: Seq<u8>) -> Set<Seq<u8>> {
    Set::new(
        |n: Seq<u8>|
            exists|s: int, e: int| is_line(t, s, e) && #[trigger] line_entry(t.subrange(s, e)) == Some(n),
    )
}

/// `labels[from..]` joined by dots.
pub open spec fn join_labels(labels: Seq<Seq<u8>>) -> Seq<u8>
    decreases labels.len(),
{
    if labels.len() == 0 {
        seq![]
    } else if labels.len() == 1 {
        labels[0]
    } else {
        join_labels(labels.drop_last()) + seq![0x2eu8] + labels.last()
    }
}

/// The name made of the labels from `i` on, in lower case.
pub open spec fn suffix_name(labels: Seq<Seq<u8>>, i: int) -> Seq<u8> {
    lower(join_labels(labels.subrange(i, labels.len() as int)))
}

/// `*.` put before `n`.
pub open spec fn wildcard(n: Seq<u8>) -> Seq<u8> {
    seq![0x2au8, 0x2eu8] + n
}

/// Whether `names` blocks the name made of `labels`: some suffix of it, the whole name
/// included, is listed, or some strict suffix is listed as a wildcard.
pub open spec fn blocks(names: Set<Seq<u8>>, labels: Seq<Seq<u8>>) -> bool {
    exists|i: int|
        0 <= i < labels.len() && (names.contains(#[trigger] suffix_name(labels, i)) || (i >= 1
            && names.contains(wildcard(suffix_name(labels, i)))))
}

/// Whether two byte strings are equal.
pub fn bytes_eq(a: &[u8], b: &[u8]) -> (r: bool)
    ensures
        r == (a@ == b@),
{
    if a.len() != b.len() {
        return false;
    }
    let mut i: usize = 0;
    while i < a.len()
        invariant
            a@.len() == b@.len(),
            i <= a@.len(),
            forall|k: int| 0 <= k < i ==> a@[k] == b@[k],
        decreases a@.len() - i,
    {
        if a[i] != b[i] {
            return false;
        }
        i = i + 1;
    }
    assert(a@ =~= b@);
    true
}

/// `c` with ASCII upper case letters made lower case.
pub fn lower_byte_exec(c: u8) -> (r: u8)
    ensures
        r == lower_byte(c),
{
    if 0x41 <= c && c <= 0x5a {
        c + 32
    } else {
        c
    }
}

/// A name as the block-list compares it: lower case, without one trailing dot.
pub fn normalize_name(s: &[u8]) -> (r: Vec<u8>)
    ensures
        r@ == normalize(s@),
{
    let mut r: Vec<u8> = Vec::new();
    let mut i: usize = 0;
    while i < s.len()
        invariant
            i <= s@.len(),
            r@ == lower(s@.take(i as int)),
        decreases s@.len() - i,
    {
        r.push(lower_byte_exec(s[i]));
        assert(lower(s@.take(i + 1)) =~= lower(s@.take(i as int)).push(lower_byte(s@[i as int])));
        i = i + 1;
    }
    assert(s@.take(i as int) =~= s@);
    if r.len() > 0 && r[r.len() - 1] == 0x2e {
        r.pop();
        assert(r@ =~= normalize(s@));
    }
    r
}

/// Modulus of the hash that sorts names into buckets.
pub const HASH_MODULUS: u64 = 1_000_000_007;

/// The bucket that `s` goes into.
pub open spec fn name_hash(s: Seq<u8>) -> u64
    decreases s.len(),
{
    if s.len() == 0 {
        0
    } else {
        ((name_hash(s.drop_last()) as int * 31 + s.last() as int) % HASH_MODULUS as int) as u64
    }
}

/// The bucket that `s` goes into.
pub fn hash_of(s: &[u8]) -> (r: u64)
    ensures
        r == name_hash(s@),
        r < HASH_MODULUS,
{
    let mut h: u64 = 0;
    let mut i: usize = 0;
    while i < s.len()
        invariant
            i <= s@.len(),
            h == name_hash(s@.take(i as int)),
            h < HASH_MODULUS,
        decreases s@.len() - i,
    {
        assert(s@.take(i + 1).drop_last() =~= s@.take(i as int));
        assert(s@.take(i + 1).last() == s@[i as int]);
        h = (h * 31 + s[i] as u64) % HASH_MODULUS;
        i = i + 1;
    }
    assert(s@.take(i as int) =~= s@);
    h
}

/// A set of blocked names, each normalized and not empty, kept in buckets by hash.
pub struct BlockList {
    buckets: HashMap<u64, Vec<Vec<u8>>>,
}

impl BlockList {
    /// The names kept in bucket `h`.
    pub closed spec fn bucket_names(&self, h: u64) -> Seq<Seq<u8>> {
        if self.buckets@.contains_key(h) {
            self.buckets@[h]@.map_values(|n: Vec<u8>| n@)
        } else {
            seq![]
        }
    }
}

impl View for BlockList {
    type V = Set<Seq<u8>>;

    closed spec fn view(&self) -> Set<Seq<u8>> {
        Set::new(|n: Seq<u8>| self.bucket_names(name_hash(n)).contains(n))
    }
}

impl BlockList {
    /// Every name is in lower case and not empty.
    pub open spec fn wf(&self) -> bool {
        forall|n: Seq<u8>| #[trigger] self@.contains(n) ==> n.len() > 0 && lower(n) == n
    }

    /// The empty block-list.
    pub fn new() -> (r: Self)
        ensures
            r@ == Set::<Seq<u8>>::empty(),
            r.wf(),
    {
        let r = BlockList { buckets: HashMap::new() };
        assert(r@ =~= Set::<Seq<u8>>::empty());
        r
    }

    /// Adds `name`, already normalized.
    #[verifier::rlimit(40)]
    fn push_normalized(&mut self, name: Vec<u8>)
        ensures
            final(self)@ == old(self)@.insert(name@),
    {
        let h = hash_of(name.as_slice());
        let mut bucket = match self.buckets.remove(&h) {
            Some(b) => b,
            None => Vec::new(),
        };
        let ghost before = bucket@.map_values(|n: Vec<u8>| n@);
        assert(before == old(self).bucket_names(h));
        let ghost nv = name@;
        bucket.push(name);
        let ghost after = bucket@.map_values(|n: Vec<u8>| n@);
        assert(after =~= before.push(nv));
        self.buckets.insert(h, bucket);
        assert forall|n: Seq<u8>| #[trigger] self@.contains(n) <==> old(self)@.contains(n) || n == nv by {
            if name_hash(n) == h {
                assert(self.bucket_names(h) == after);
                if after.contains(n) {
                    let k = choose|k: int| 0 <= k < after.len() && after[k] == n;
                    if k < before.len() {
                        assert(before[k] == n);
                    }
                }
                if before.contains(n) {
                    let k = choose|k: int| 0 <= k < before.len() && before[k] == n;
                    assert(after[k] == n);
                }
                if n == nv {
                    assert(after[before.len() as int] == n);
                }
            } else {
                assert(self.bucket_names(name_hash(n)) == old(self).bucket_names(name_hash(n)));
            }
        }
        assert(self@ =~= old(self)@.insert(nv));
    }

    /// Adds `name` in normalized form, unless that is empty.
    pub fn insert(&mut self, name: &[u8])
        requires
            old(self).wf(),
        ensures
            final(self).wf(),
            normalize(name@).len() > 0 ==> final(self)@ == old(self)@.insert(normalize(name@)),
            normalize(name@).len() == 0 ==> final(self)@ == old(self)@,
    {
        let n = normalize_name(name);
        if n.len() > 0 {
            proof {
                lemma_normalize_lower(name@);
            }
            self.push_normalized(n);
        }
    }

    /// Whether `name` is listed as it stands.
    pub fn contains_exact(&self, name: &[u8]) -> (r: bool)
        ensures
            r == self@.contains(name@),
    {
        let h = hash_of(name);
        let bucket = match self.buckets.get(&h) {
            Some(b) => b,
            None => {
                assert(self.bucket_names(h) =~= Seq::<Seq<u8>>::empty());
                return false;
            },
        };
        let ghost s = bucket@.map_values(|n: Vec<u8>| n@);
        assert(s == self.bucket_names(h));
        let mut i: usize = 0;
        while i < bucket.len()
            invariant
                i <= bucket@.len(),
                s == bucket@.map_values(|n: Vec<u8>| n@),
                s == self.bucket_names(h),
                h == name_hash(name@),
                forall|k: int| 0 <= k < i ==> s[k] != name@,
            decreases bucket@.len() - i,
        {
            if bytes_eq(bucket[i].as_slice(), name) {
                assert(s[i as int] == name@);
                assert(s.contains(name@));
                assert(self@.contains(name@));
                return true;
            }
            i = i + 1;
        }
        assert(!s.contains(name@));
        assert(!self@.contains(name@));
        false
    }

    /// Whether the name made of `labels` is blocked.
    pub fn blocks_labels(&self, labels: &Vec<Vec<u8>>) -> (r: bool)
        ensures
            r == blocks(self@, crate::question::labels_view(labels@)),
    {
        let ghost ls = crate::question::labels_view(labels@);
        let mut i: usize = 0;
        while i < labels.len()
            invariant
                i <= labels@.len(),
                ls == crate::question::labels_view(labels@),
                forall|k: int|
                    0 <= k < i ==> !(self@.contains(#[trigger] suffix_name(ls, k)) || (k >= 1
                        && self@.contains(wildcard(suffix_name(ls, k))))),
            decreases labels@.len() - i,
        {
            let name = suffix_of(labels, i);
            if self.contains_exact(name.as_slice()) {
                return true;
            }
            if i >= 1 {
                let mut w: Vec<u8> = Vec::new();
                w.push(0x2au8);
                w.push(0x2eu8);
                let mut j: usize = 0;
                while j < name.len()
                    invariant
                        j <= name@.len(),
                        w@ == seq![0x2au8, 0x2eu8] + name@.take(j as int),
                    decreases name@.len() - j,
                {
                    w.push(name[j]);
                    assert(name@.take(j + 1) =~= name@.take(j as int).push(name@[j as int]));
                    j = j + 1;
                }
                assert(name@.take(j as int) =~= name@);
                if self.contains_exact(w.as_slice()) {
                    return true;
                }
            }
            i = i + 1;
        }
        false
    }
}

/// A normalized name is in lower case.
pub proof fn lemma_normalize_lower(s: Seq<u8>)
    ensures
        lower(normalize(s)) == normalize(s),
{
    let n = normalize(s);
    let l = lower(s);
    assert forall|k: int| 0 <= k < n.len() implies lower(n)[k] == n[k] by {
        assert(n[k] == l[k]);
    }
    assert(lower(n) =~= n);
}

/// The lower case name made of `labels[i..]` joined by dots.
#[verifier::rlimit(40)]
pub fn suffix_of(labels: &Vec<Vec<u8>>, i: usize) -> (r: Vec<u8>)
    requires
        i < labels@.len(),
    ensures
        r@ == suffix_name(crate::question::labels_view(labels@), i as int),
{
    let ghost ls = crate::question::labels_view(labels@);
    let mut r: Vec<u8> = Vec::new();
    let mut j: usize = i;
    while j < labels.len()
        invariant
            i <= j <= labels@.len(),
            ls == crate::question::labels_view(labels@),
            r@ == lower(join_labels(ls.subrange(i as int, j as int))),
        decreases labels@.len() - j,
    {
        let label = &labels[j];
        let ghost before = r@;
        if j > i {
            r.push(0x2eu8);
        }
        let mut k: usize = 0;
        while k < label.len()
            invariant
                k <= label@.len(),
                r@ == before + (if j > i {
                    seq![0x2eu8]
                } else {
                    seq![]
                }) + lower(label@.take(k as int)),
            decreases label@.len() - k,
        {
            r.push(lower_byte_exec(label[k]));
            assert(lower(label@.take(k + 1)) =~= lower(label@.take(k as int)).push(
                lower_byte(label@[k as int]),
            ));
            k = k + 1;
        }
        proof {
            assert(label@.take(k as int) =~= label@);
            let sub = ls.subrange(i as int, j + 1);
            assert(sub.drop_last() =~= ls.subrange(i as int, j as int));
            assert(sub.last() == label@);
            if j > i {
                assert(join_labels(sub) == join_labels(sub.drop_last()) + seq![0x2eu8] + label@);
                assert(lower(join_labels(sub)) =~= before + seq![0x2eu8] + lower(label@));
                assert(r@ =~= before + seq![0x2eu8] + lower(label@));
            } else {
                assert(sub.len() == 1);
                assert(join_labels(sub) == label@);
                assert(join_labels(ls.subrange(i as int, j as int)) =~= Seq::<u8>::empty());
                assert(r@ =~= lower(label@));
            }
        }
        j = j + 1;
    }
    r
}

/// First index at or after `i` that does not hold a host byte.
fn host_run_end_exec(t: &[u8], i: usize) -> (r: usize)
    requires
        i <= t@.len(),
    ensures
        r == host_run_end(t@, i as int),
        i <= r <= t@.len(),
{
    let mut j = i;
    while j < t.len() && (0x61 <= t[j] && t[j] <= 0x7a || 0x41 <= t[j] && t[j] <= 0x5a || 0x30
        <= t[j] && t[j] <= 0x39 || t[j] == 0x2d || t[j] == 0x5f || t[j] == 0x2e)
        invariant
            i <= j <= t@.len(),
            host_run_end(t@, i as int) == host_run_end(t@, j as int),
        decreases t@.len() - j,
    {
        j = j + 1;
    }
    j
}

/// `t` without leading and trailing blanks.
fn trim_exec(t: &[u8]) -> (r: &[u8])
    ensures
        r@ == trim(t@),
{
    let mut a: usize = 0;
    while a < t.len() && (t[a] == 0x20 || t[a] == 0x09 || t[a] == 0x0d)
        invariant
            a <= t@.len(),
            blank_run_end(t@, 0) == blank_run_end(t@, a as int),
        decreases t@.len() - a,
    {
        a = a + 1;
    }
    let mut z: usize = t.len();
    while z > a && (t[z - 1] == 0x20 || t[z - 1] == 0x09 || t[z - 1] == 0x0d)
        invariant
            a <= z <= t@.len(),
            blank_run_start(t@, a as int, t@.len() as int) == blank_run_start(t@, a as int, z as int),
        decreases z,
    {
        z = z - 1;
    }
    slice_subrange(t, a, z)
}

/// The name that one line of a block-list stands for, if any.
pub fn entry_of_line(line: &[u8]) -> (r: Option<Vec<u8>>)
    ensures
        match (r, line_entry(line@)) {
            (Some(n), Some(m)) => n@ == m,
            (None, None) => true,
            _ => false,
        },
{
    let t = trim_exec(line);
    let raw: Option<&[u8]> = if t.len() == 0 || t[0] == 0x21 || t[0] == 0x23 || t[0] == 0x5b {
        None
    } else if t.len() >= 2 && t[0] == 0x7c && t[1] == 0x7c {
        let k = host_run_end_exec(t, 2);
        if k > 2 && (k == t.len() || t[k] == 0x5e) {
            Some(slice_subrange(t, 2, k))
        } else {
            None
        }
    } else if host_run_end_exec(t, 0) == t.len() {
        Some(t)
    } else if t.len() > 2 && t[0] == 0x2a && t[1] == 0x2e && host_run_end_exec(t, 2) == t.len() {
        Some(t)
    } else {
        None
    };
    match raw {
        Some(n) => {
            let v = normalize_name(n);
            if v.len() > 0 {
                Some(v)
            } else {
                None
            }
        },
        None => None,
    }
}

/// The single line of `t` that ends between `start` and `end` starts at `start` and ends
/// at `end`.
proof fn lemma_line_unique(t: Seq<u8>, start: int, end: int, s: int, e: int)
    requires
        0 <= start <= end <= t.len(),
        start == 0 || t[start - 1] == 0x0a,
        end == t.len() || t[end] == 0x0a,
        forall|k: int| start <= k < end ==> t[k] != 0x0a,
        is_line(t, s, e),
        start <= e <= end,
    ensures
        s == start,
        e == end,
{
    if e < end {
        assert(t[e] == 0x0a);
    }
    if s < start {
        assert(t[start - 1] != 0x0a);
    }
    if s > start {
        assert(t[s - 1] == 0x0a);
    }
}

/// The block-list that a text stands for, one entry per line.
#[verifier::rlimit(40)]
pub fn parse_block_list(text: &[u8]) -> (r: BlockList)
    ensures
        r.wf(),
        r@ == entries_of(text@),
{
    let mut list = BlockList::new();
    let mut start: usize = 0;
    loop
        invariant
            start <= text@.len(),
            start == 0 || text@[start - 1] == 0x0a,
            list.wf(),
            forall|n: Seq<u8>|
                list@.contains(n) <==> exists|s: int, e: int|
                    is_line(text@, s, e) && e < start && #[trigger] line_entry(text@.subrange(s, e))
                        == Some(n),
        decreases text@.len() - start,
    {
        let mut end: usize = start;
        while end < text.len() && text[end] != 0x0a
            invariant
                start <= end <= text@.len(),
                forall|k: int| start <= k < end ==> text@[k] != 0x0a,
            decreases text@.len() - end,
        {
            end = end + 1;
        }
        let line = slice_subrange(text, start, end);
        let entry = entry_of_line(line);
        let ghost prev = list@;
        let ghost cur = line_entry(text@.subrange(start as int, end as int));
        assert(is_line(text@, start as int, end as int));
        match entry {
            Some(n) => {
                proof {
                    lemma_normalize_lower(line@);
                    assert(cur == Some(n@));
                    assert(lower(n@) == n@);
                }
                list.push_normalized(n);
            },
            None => {},
        }
        assert forall|n: Seq<u8>|
            list@.contains(n) <==> exists|s: int, e: int|
                is_line(text@, s, e) && e <= end && #[trigger] line_entry(text@.subrange(s, e))
                    == Some(n) by {
            if list@.contains(n) {
                if prev.contains(n) {
                    let (s, e) = choose|s: int, e: int|
                        is_line(text@, s, e) && e < start && #[trigger] line_entry(
                            text@.subrange(s, e),
                        ) == Some(n);
                    assert(e <= end);
                } else {
                    assert(cur == Some(n));
                    assert(line_entry(text@.subrange(start as int, end as int)) == Some(n));
                }
            }
            if exists|s: int, e: int|
                is_line(text@, s, e) && e <= end && #[trigger] line_entry(text@.subrange(s, e))
                    == Some(n) {
                let (s, e) = choose|s: int, e: int|
                    is_line(text@, s, e) && e <= end && #[trigger] line_entry(text@.subrange(s, e))
                        == Some(n);
                if e >= start {
                    lemma_line_unique(text@, start as int, end as int, s, e);
                    assert(cur == Some(n));
                } else {
                    assert(prev.contains(n));
                }
            }
        }
        if end == text.len() {
            assert(list@ =~= entries_of(text@)) by {
                assert forall|n: Seq<u8>| list@.contains(n) implies entries_of(text@).contains(n) by {
                }
                assert forall|n: Seq<u8>| entries_of(text@).contains(n) implies list@.contains(n) by {
                    let (s, e) = choose|s: int, e: int|
                        is_line(text@, s, e) && #[trigger] line_entry(text@.subrange(s, e)) == Some(n);
                    assert(e <= end);
                }
            }
            return list;
        }
        start = end + 1;
    }
}

} // verus!
