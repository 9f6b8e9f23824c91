//! GPU inventory, `dlperf` score, and hardware fingerprint.
//!
//! `dlperf` is a scalar performance estimate on a scale on which one RTX 4090
//! stands at 42; it adds up over the GPUs of a host. It is looked up by the GPU's
//! name. It need not be precise: it makes a false claim about hardware expensive.

use sha2::{Digest, Sha256};
use vstd::prelude::*;
use vstd::relations::{sorted_by, total_ordering};
use vstd::utf8::{encode_scalar, encode_utf8};

use crate::db::{lemma_position, lemma_position_is, lemma_position_none, position};
use crate::text::{ascii, contains, digit_char, fold, has_infix, hex, push_hex, raise, stands_at};

verus! {

/// One physical GPU.
#[derive(Debug, Clone, PartialEq, Eq)]
pub struct GpuInfo {
    pub name: String,
    pub uuid: String,
    pub pci_bus_id: String,
    /// Per-GPU VRAM in megabytes.
    pub vram_mb: i64,
}

/// What [`GpuInfo`] holds, with its texts as character sequences.
#[verifier::ext_equal]
pub struct GpuInfoView {
    pub name: Seq<char>,
    pub uuid: Seq<char>,
    pub pci_bus_id: Seq<char>,
    pub vram_mb: i64,
}

impl View for GpuInfo {
    type V = GpuInfoView;

    open spec fn view(&self) -> GpuInfoView {
        GpuInfoView {
            name: self.name@,
            uuid: self.uuid@,
            pci_bus_id: self.pci_bus_id@,
            vram_mb: self.vram_mb,
        }
    }
}

/// The GPUs of a list, each by its view.
pub open spec fn gpu_views(s: Seq<GpuInfo>) -> Seq<GpuInfoView> {
    s.map_values(|g: GpuInfo| g@)
}

/// The result of probing the host's accelerators.
#[derive(Debug, Clone, PartialEq, Eq)]
pub struct Inventory {
    pub gpus: Vec<GpuInfo>,
    pub dlperf: u128,
    pub hw_fingerprint: String,
}

impl Inventory {
    pub fn gpu_count(&self) -> (r: i32)
        ensures
            r == self.gpus@.len() as i32,
    {
        self.gpus.len() as i32
    }

    /// Model name for the offer listing: that of the first GPU.
    pub fn gpu_name(&self) -> (r: &str)
        ensures
            r@ == (if self.gpus@.len() > 0 {
                self.gpus@[0].name@
            } else {
                "unknown"@
            }),
    {
        if self.gpus.len() > 0 {
            self.gpus[0].name.as_str()
        } else {
            "unknown"
        }
    }

    /// Per-GPU VRAM in megabytes: that of the first GPU.
    pub fn vram_mb(&self) -> (r: i64)
        ensures
            r == (if self.gpus@.len() > 0 {
                self.gpus@[0].vram_mb
            } else {
                0
            }),
    {
        if self.gpus.len() > 0 {
            self.gpus[0].vram_mb
        } else {
            0
        }
    }
}

/// Whole megabytes of a number of bytes.
pub fn megabytes(bytes: u64) -> (r: i64)
    ensures
        r == bytes / 1048576,
{
    (bytes / 1048576) as i64
}

// The fingerprint.

/// The text by which a GPU enters the fingerprint.
pub open spec fn gpu_text(g: GpuInfoView) -> Seq<char> {
    g.name + "|"@ + g.uuid + "|"@ + g.pci_bus_id
}

/// The bytes by which a GPU enters the fingerprint.
pub open spec fn gpu_record(g: GpuInfoView) -> Seq<u8> {
    encode_utf8(gpu_text(g))
}

/// The records of some GPUs.
pub open spec fn gpu_records(gs: Seq<GpuInfoView>) -> Seq<Seq<u8>> {
    gs.map_values(|g: GpuInfoView| gpu_record(g))
}

/// The order of byte strings by their first difference; a prefix comes first.
pub open spec fn bytes_le(a: Seq<u8>, b: Seq<u8>) -> bool
    decreases a.len(),
{
    if a.len() == 0 {
        true
    } else if b.len() == 0 {
        false
    } else if a[0] != b[0] {
        a[0] < b[0]
    } else {
        bytes_le(a.skip(1), b.skip(1))
    }
}

/// Byte strings in their order.
pub open spec fn in_order(rs: Seq<Seq<u8>>) -> Seq<Seq<u8>> {
    rs.sort_by(|a: Seq<u8>, b: Seq<u8>| bytes_le(a, b))
}

/// Records one behind the other, each followed by a zero byte.
pub open spec fn message(rs: Seq<Seq<u8>>) -> Seq<u8>
    decreases rs.len(),
{
    if rs.len() == 0 {
        Seq::empty()
    } else {
        message(rs.drop_last()) + rs.last() + seq![0u8]
    }
}

/// Bytes in hexadecimal, two digits each.
pub open spec fn hex_text(bytes: Seq<u8>) -> Seq<char>
    decreases bytes.len(),
{
    if bytes.len() == 0 {
        Seq::empty()
    } else {
        hex_text(bytes.drop_last()) + hex(bytes.last() as nat, 2)
    }
}

/// True for a digit of a number in hexadecimal, letters in lower case.
pub open spec fn is_hex_digit(c: char) -> bool {
    '0' <= c <= '9' || 'a' <= c <= 'f'
}

proof fn lemma_hex_digits(n: nat, width: nat)
    ensures
        hex(n, width).len() == width,
        forall|i: int| 0 <= i < width ==> is_hex_digit(#[trigger] hex(n, width)[i]),
    decreases width,
{
    if width > 0 {
        lemma_hex_digits(n / 16, (width - 1) as nat);
        let d = n % 16;
        assert(0 <= d < 16);
        assert(is_hex_digit(digit_char(d as int)));
        let front = hex(n / 16, (width - 1) as nat);
        assert forall|i: int| 0 <= i < width implies is_hex_digit(#[trigger] hex(n, width)[i]) by {
            if i < width - 1 {
                assert(hex(n, width)[i] == front[i]);
            }
        }
    }
}

proof fn lemma_hex_text(bytes: Seq<u8>)
    ensures
        hex_text(bytes).len() == 2 * bytes.len(),
        forall|i: int|
            0 <= i < hex_text(bytes).len() ==> is_hex_digit(#[trigger] hex_text(bytes)[i]),
    decreases bytes.len(),
{
    if bytes.len() > 0 {
        let front = hex_text(bytes.drop_last());
        let last = hex(bytes.last() as nat, 2);
        lemma_hex_text(bytes.drop_last());
        lemma_hex_digits(bytes.last() as nat, 2);
        assert forall|i: int| 0 <= i < hex_text(bytes).len() implies is_hex_digit(
            #[trigger] hex_text(bytes)[i],
        ) by {
            if i < front.len() {
                assert(hex_text(bytes)[i] == front[i]);
            } else {
                assert(hex_text(bytes)[i] == last[i - front.len()]);
            }
        }
    }
}

/// The SHA-256 digest of a message.
pub uninterp spec fn sha256_of(message: Seq<u8>) -> Seq<u8>;

/// `Sha256::digest` is a function of the message and gives thirty-two bytes. What
/// the bytes are is left unsaid.
#[verifier::external_body]
fn sha256(message: &[u8]) -> (r: Vec<u8>)
    ensures
        r@ == sha256_of(message@),
        r@.len() == 32,
{
    Sha256::digest(message).to_vec()
}

/// The fingerprint of a list of GPUs.
pub open spec fn fingerprint_of(gs: Seq<GpuInfoView>) -> Seq<char> {
    hex_text(sha256_of(message(in_order(gpu_records(gs)))))
}

proof fn lemma_bytes_le_reflexive(a: Seq<u8>)
    ensures
        bytes_le(a, a),
    decreases a.len(),
{
    if a.len() > 0 {
        lemma_bytes_le_reflexive(a.skip(1));
    }
}

proof fn lemma_bytes_le_connected(a: Seq<u8>, b: Seq<u8>)
    ensures
        bytes_le(a, b) || bytes_le(b, a),
    decreases a.len(),
{
    if a.len() > 0 && b.len() > 0 && a[0] == b[0] {
        lemma_bytes_le_connected(a.skip(1), b.skip(1));
    }
}

proof fn lemma_bytes_le_antisymmetric(a: Seq<u8>, b: Seq<u8>)
    requires
        bytes_le(a, b),
        bytes_le(b, a),
    ensures
        a == b,
    decreases a.len(),
{
    if a.len() == 0 || b.len() == 0 {
        assert(a =~= b);
    } else {
        lemma_bytes_le_antisymmetric(a.skip(1), b.skip(1));
        assert(a =~= seq![a[0]] + a.skip(1));
        assert(b =~= seq![b[0]] + b.skip(1));
    }
}

proof fn lemma_bytes_le_transitive(a: Seq<u8>, b: Seq<u8>, c: Seq<u8>)
    requires
        bytes_le(a, b),
        bytes_le(b, c),
    ensures
        bytes_le(a, c),
    decreases a.len(),
{
    if a.len() > 0 && b.len() > 0 && c.len() > 0 && a[0] == b[0] && b[0] == c[0] {
        lemma_bytes_le_transitive(a.skip(1), b.skip(1), c.skip(1));
    }
}

/// The order of byte strings is total.
pub proof fn lemma_bytes_le_total()
    ensures
        total_ordering(|a: Seq<u8>, b: Seq<u8>| bytes_le(a, b)),
{
    let le = |a: Seq<u8>, b: Seq<u8>| bytes_le(a, b);
    assert forall|a: Seq<u8>| #[trigger] le(a, a) by {
        lemma_bytes_le_reflexive(a);
    }
    assert forall|a: Seq<u8>, b: Seq<u8>| #[trigger] le(a, b) && #[trigger] le(b, a) implies a
        == b by {
        lemma_bytes_le_antisymmetric(a, b);
    }
    assert forall|a: Seq<u8>, b: Seq<u8>, c: Seq<u8>| #[trigger]
        le(a, b) && #[trigger] le(b, c) implies le(a, c) by {
        lemma_bytes_le_transitive(a, b, c);
    }
    assert forall|a: Seq<u8>, b: Seq<u8>| #[trigger] le(a, b) || #[trigger] le(b, a) by {
        lemma_bytes_le_connected(a, b);
    }
}

/// Compares two byte strings.
fn bytes_up_to(a: &Vec<u8>, b: &Vec<u8>) -> (r: bool)
    ensures
        r == bytes_le(a@, b@),
{
    let mut i: usize = 0;
    proof {
        assert(a@.skip(0) =~= a@);
        assert(b@.skip(0) =~= b@);
    }
    while i < a.len() && i < b.len() && a[i] == b[i]
        invariant
            i <= a@.len(),
            i <= b@.len(),
            bytes_le(a@, b@) == bytes_le(a@.skip(i as int), b@.skip(i as int)),
        decreases a@.len() - i,
    {
        proof {
            assert(a@.skip(i as int).skip(1) =~= a@.skip(i + 1));
            assert(b@.skip(i as int).skip(1) =~= b@.skip(i + 1));
        }
        i += 1;
    }
    if i == a.len() {
        true
    } else if i == b.len() {
        false
    } else {
        a[i] < b[i]
    }
}

/// The byte strings of a list.
pub open spec fn byte_views(s: Seq<Vec<u8>>) -> Seq<Seq<u8>> {
    s.map_values(|v: Vec<u8>| v@)
}

fn copy_bytes(bytes: &[u8]) -> (r: Vec<u8>)
    ensures
        r@ == bytes@,
{
    let mut out: Vec<u8> = Vec::new();
    let mut i: usize = 0;
    while i < bytes.len()
        invariant
            i <= bytes@.len(),
            out@ == bytes@.take(i as int),
        decreases bytes@.len() - i,
    {
        out.push(bytes[i]);
        i += 1;
    }
    out
}

/// The record of a GPU.
fn record_of(g: &GpuInfo) -> (r: Vec<u8>)
    ensures
        r@ == gpu_record(g@),
{
    let mut text = g.name.clone();
    text.push_str("|");
    text.push_str(g.uuid.as_str());
    text.push_str("|");
    text.push_str(g.pci_bus_id.as_str());
    copy_bytes(text.as_str().as_bytes())
}

/// The records of some GPUs in their order.
fn sorted_records(gpus: &Vec<GpuInfo>) -> (r: Vec<Vec<u8>>)
    ensures
        byte_views(r@) == in_order(gpu_records(gpu_views(gpus@))),
{
    broadcast use vstd::seq_lib::group_to_multiset_ensures;

    let ghost le = |a: Seq<u8>, b: Seq<u8>| bytes_le(a, b);
    let ghost all = gpu_records(gpu_views(gpus@));
    let mut out: Vec<Vec<u8>> = Vec::new();
    let mut k: usize = 0;
    proof {
        lemma_bytes_le_total();
        assert(byte_views(out@) =~= all.take(0));
    }
    while k < gpus.len()
        invariant
            k <= gpus@.len(),
            le == (|a: Seq<u8>, b: Seq<u8>| bytes_le(a, b)),
            total_ordering(le),
            all == gpu_records(gpu_views(gpus@)),
            byte_views(out@).to_multiset() == all.take(k as int).to_multiset(),
            sorted_by(byte_views(out@), le),
            out@.len() == k,
        decreases gpus@.len() - k,
    {
        let record = record_of(&gpus[k]);
        let ghost before = byte_views(out@);
        let mut at: usize = k;
        while at > 0 && !bytes_up_to(&out[at - 1], &record)
            invariant
                at <= k,
                out@.len() == k,
                le == (|a: Seq<u8>, b: Seq<u8>| bytes_le(a, b)),
                total_ordering(le),
                before == byte_views(out@),
                sorted_by(before, le),
                forall|j: int| at <= j < k ==> le(record@, #[trigger] before[j]),
            decreases at,
        {
            proof {
                assert(out@[at - 1]@ == before[at - 1]);
                lemma_bytes_le_connected(before[at - 1], record@);
            }
            at -= 1;
        }
        proof {
            if at > 0 {
                assert(out@[at - 1]@ == before[at - 1]);
                assert forall|j: int| 0 <= j < at implies le(#[trigger] before[j], record@) by {
                    if j < at - 1 {
                        assert(le(before[j], before[at - 1]));
                        lemma_bytes_le_transitive(before[j], before[at - 1], record@);
                    }
                }
            }
        }
        out.insert(at, record);
        proof {
            let after = byte_views(out@);
            assert(after =~= before.insert(at as int, record@));
            vstd::seq_lib::to_multiset_insert(before, at as int, record@);
            assert(all.take(k + 1) =~= all.take(k as int).push(record@));
            vstd::seq_lib::to_multiset_build(all.take(k as int), record@);
            assert forall|i: int, j: int| 0 <= i < j < after.len() implies #[trigger] le(
                after[i],
                after[j],
            ) by {
                let x = if i < at { i } else { i - 1 };
                let y = if j < at { j } else { j - 1 };
                if i != at && j != at {
                    assert(le(before[x], before[y]));
                } else if i == at {
                    assert(le(record@, before[y]));
                } else {
                    assert(le(before[x], record@));
                }
            }
        }
        k += 1;
    }
    proof {
        assert(all.take(k as int) =~= all);
        all.lemma_sort_by_ensures(le);
        vstd::seq_lib::lemma_sorted_unique(byte_views(out@), all.sort_by(le), le);
    }
    out
}

/// The fingerprint of the host's GPUs: SHA-256 over their records in order, in
/// hexadecimal. It does not depend on the order in which the GPUs are found, and what
/// is hashed changes when hardware is swapped.
pub fn fingerprint(gpus: &Vec<GpuInfo>) -> (r: String)
    ensures
        r@ == fingerprint_of(gpu_views(gpus@)),
        r@.len() == 64,
        forall|i: int| 0 <= i < r@.len() ==> is_hex_digit(#[trigger] r@[i]),
{
    let records = sorted_records(gpus);
    let ghost rs = byte_views(records@);
    let mut bytes: Vec<u8> = Vec::new();
    let mut k: usize = 0;
    proof {
        assert(rs.take(0) =~= Seq::empty());
    }
    while k < records.len()
        invariant
            k <= records@.len(),
            rs == byte_views(records@),
            bytes@ == message(rs.take(k as int)),
        decreases records@.len() - k,
    {
        let ghost start = bytes@;
        let mut i: usize = 0;
        while i < records[k].len()
            invariant
                k < records@.len(),
                i <= records@[k as int]@.len(),
                bytes@ == start + records@[k as int]@.take(i as int),
            decreases records@[k as int]@.len() - i,
        {
            bytes.push(records[k][i]);
            i += 1;
        }
        bytes.push(0);
        proof {
            let longer = rs.take(k + 1);
            assert(longer.drop_last() =~= rs.take(k as int));
            assert(longer.last() == records@[k as int]@);
            assert(bytes@ =~= start + longer.last() + seq![0u8]);
        }
        k += 1;
    }
    proof {
        assert(rs.take(k as int) =~= rs);
    }
    let digest = sha256(bytes.as_slice());
    proof {
        lemma_hex_text(digest@);
    }
    hex_of(&digest)
}

/// Bytes in hexadecimal, two digits each.
pub fn hex_of(bytes: &Vec<u8>) -> (r: String)
    ensures
        r@ == hex_text(bytes@),
{
    let mut out = String::new();
    let mut i: usize = 0;
    proof {
        assert(out@ =~= hex_text(bytes@.take(0)));
    }
    while i < bytes.len()
        invariant
            i <= bytes@.len(),
            out@ == hex_text(bytes@.take(i as int)),
        decreases bytes@.len() - i,
    {
        proof {
            assert(bytes@.take(i + 1).drop_last() =~= bytes@.take(i as int));
        }
        push_hex(&mut out, bytes[i] as u64, 2);
        i += 1;
    }
    proof {
        assert(bytes@.take(i as int) =~= bytes@);
    }
    out
}

/// Lists of the same items have the same images, whatever their order.
proof fn lemma_same_images<A, B>(a: Seq<A>, b: Seq<A>, f: spec_fn(A) -> B)
    requires
        a.to_multiset() == b.to_multiset(),
    ensures
        a.map_values(f).to_multiset() == b.map_values(f).to_multiset(),
    decreases a.len(),
{
    broadcast use vstd::seq_lib::group_to_multiset_ensures;
    broadcast use vstd::multiset::group_multiset_axioms;

    vstd::seq_lib::to_multiset_len(a);
    vstd::seq_lib::to_multiset_len(b);
    if a.len() == 0 {
        assert(a.map_values(f) =~= b.map_values(f));
    } else {
        let x = a.last();
        assert(a.contains(x));
        assert(b.to_multiset().count(x) > 0);
        assert(b.contains(x));
        let i = b.index_of(x);
        let rest = b.remove(i);
        assert(a.remove(a.len() - 1) =~= a.drop_last());
        vstd::seq_lib::to_multiset_remove(a, a.len() - 1);
        vstd::seq_lib::to_multiset_remove(b, i);
        lemma_same_images(a.drop_last(), rest, f);
        assert(a.map_values(f) =~= a.drop_last().map_values(f).push(f(x)));
        assert(b.map_values(f) =~= rest.map_values(f).insert(i, f(x)));
        vstd::seq_lib::to_multiset_build(a.drop_last().map_values(f), f(x));
        vstd::seq_lib::to_multiset_insert(rest.map_values(f), i, f(x));
    }
}

/// The fingerprint does not depend on the order in which the GPUs are found.
pub proof fn fingerprint_ignores_order(a: Seq<GpuInfoView>, b: Seq<GpuInfoView>)
    requires
        a.to_multiset() == b.to_multiset(),
    ensures
        fingerprint_of(a) == fingerprint_of(b),
{
    let le = |x: Seq<u8>, y: Seq<u8>| bytes_le(x, y);
    lemma_bytes_le_total();
    lemma_same_images(a, b, |g: GpuInfoView| gpu_record(g));
    gpu_records(a).lemma_sort_by_ensures(le);
    gpu_records(b).lemma_sort_by_ensures(le);
    vstd::seq_lib::lemma_sorted_unique(in_order(gpu_records(a)), in_order(gpu_records(b)), le);
}

/// Only what a GPU is known by enters the fingerprint: its memory does not.
pub proof fn memory_does_not_count(a: Seq<GpuInfoView>, b: Seq<GpuInfoView>)
    requires
        identities(a) == identities(b),
    ensures
        fingerprint_of(a) == fingerprint_of(b),
{
    assert(a.len() == identities(a).len() && b.len() == identities(b).len());
    assert forall|i: int| 0 <= i < a.len() implies gpu_records(a)[i] == #[trigger] gpu_records(
        b,
    )[i] by {
        assert(identities(a)[i] == identity(a[i]) && identities(b)[i] == identity(b[i]));
    }
    assert(gpu_records(a) =~= gpu_records(b));
}

/// True when no byte is zero.
pub open spec fn zero_free(bytes: Seq<u8>) -> bool {
    forall|i: int| 0 <= i < bytes.len() ==> #[trigger] bytes[i] != 0
}

proof fn lemma_message_injective(a: Seq<Seq<u8>>, b: Seq<Seq<u8>>)
    requires
        forall|i: int| 0 <= i < a.len() ==> zero_free(#[trigger] a[i]),
        forall|i: int| 0 <= i < b.len() ==> zero_free(#[trigger] b[i]),
        message(a) == message(b),
    ensures
        a == b,
    decreases a.len(),
{
    let m = message(a);
    if a.len() == 0 {
        assert(m.len() == 0);
        if b.len() > 0 {
            assert(message(b).len() > 0);
        }
        assert(a =~= b);
    } else {
        assert(m.len() > 0);
        assert(b.len() > 0);
        let p = message(a.drop_last());
        let q = message(b.drop_last());
        let x = a.last();
        let y = b.last();
        lemma_message_end(a.drop_last());
        lemma_message_end(b.drop_last());
        assert(zero_free(a[a.len() - 1]));
        assert(zero_free(b[b.len() - 1]));
        if x.len() < y.len() {
            if p.len() > 0 {
                assert(m[p.len() - 1] == p.last());
                assert(m[p.len() - 1] == y[p.len() - 1 - q.len()]);
            }
            assert(false);
        }
        if y.len() < x.len() {
            if q.len() > 0 {
                assert(m[q.len() - 1] == q.last());
                assert(m[q.len() - 1] == x[q.len() - 1 - p.len()]);
            }
            assert(false);
        }
        assert(p =~= m.take(p.len() as int));
        assert(q =~= m.take(p.len() as int));
        assert(x =~= m.subrange(p.len() as int, m.len() - 1));
        assert(y =~= m.subrange(p.len() as int, m.len() - 1));
        assert forall|i: int| 0 <= i < a.drop_last().len() implies zero_free(
            #[trigger] a.drop_last()[i],
        ) by {
            assert(zero_free(a[i]));
        }
        assert forall|i: int| 0 <= i < b.drop_last().len() implies zero_free(
            #[trigger] b.drop_last()[i],
        ) by {
            assert(zero_free(b[i]));
        }
        lemma_message_injective(a.drop_last(), b.drop_last());
        assert(a =~= a.drop_last().push(x));
        assert(b =~= b.drop_last().push(y));
    }
}

proof fn lemma_message_end(a: Seq<Seq<u8>>)
    ensures
        message(a).len() > 0 ==> message(a).last() == 0,
{
}

/// What a GPU is known by: name, id and place.
pub open spec fn identity(g: GpuInfoView) -> (Seq<char>, Seq<char>, Seq<char>) {
    (g.name, g.uuid, g.pci_bus_id)
}

/// The identities of some GPUs.
pub open spec fn identities(gs: Seq<GpuInfoView>) -> Seq<(Seq<char>, Seq<char>, Seq<char>)> {
    gs.map_values(|g: GpuInfoView| identity(g))
}

/// True when a text holds neither of the two signs that separate the parts of the
/// fingerprint's message.
pub open spec fn plain(s: Seq<char>) -> bool {
    forall|i: int| 0 <= i < s.len() ==> #[trigger] s[i] != '|' && s[i] != '\0'
}

/// True when the texts of an identity are plain.
pub open spec fn plain_identity(t: (Seq<char>, Seq<char>, Seq<char>)) -> bool {
    plain(t.0) && plain(t.1) && plain(t.2)
}

/// The text of an identity.
pub open spec fn identity_text(t: (Seq<char>, Seq<char>, Seq<char>)) -> Seq<char> {
    t.0 + "|"@ + t.1 + "|"@ + t.2
}

/// Where a text without bars is followed by a bar, the bar tells where it ends.
proof fn lemma_bar_splits(a: Seq<char>, x: Seq<char>, b: Seq<char>, y: Seq<char>)
    requires
        plain(a),
        plain(b),
        a + seq!['|'] + x == b + seq!['|'] + y,
    ensures
        a == b,
        x == y,
{
    let s = a + seq!['|'] + x;
    let t = b + seq!['|'] + y;
    if a.len() < b.len() {
        assert(s[a.len() as int] == '|');
        assert(t[a.len() as int] == b[a.len() as int]);
        assert(false);
    }
    if b.len() < a.len() {
        assert(t[b.len() as int] == '|');
        assert(s[b.len() as int] == a[b.len() as int]);
        assert(false);
    }
    assert(a =~= s.take(a.len() as int));
    assert(b =~= t.take(a.len() as int));
    assert(x =~= s.skip(a.len() as int + 1));
    assert(y =~= t.skip(a.len() as int + 1));
}

/// Plain identities can be told apart by their texts.
proof fn lemma_identity_text_injective(
    s: (Seq<char>, Seq<char>, Seq<char>),
    t: (Seq<char>, Seq<char>, Seq<char>),
)
    requires
        plain_identity(s),
        plain_identity(t),
        identity_text(s) == identity_text(t),
    ensures
        s == t,
{
    reveal_strlit("|");
    assert("|"@ =~= seq!['|']);
    assert(identity_text(s) =~= s.0 + seq!['|'] + (s.1 + seq!['|'] + s.2));
    assert(identity_text(t) =~= t.0 + seq!['|'] + (t.1 + seq!['|'] + t.2));
    lemma_bar_splits(s.0, s.1 + seq!['|'] + s.2, t.0, t.1 + seq!['|'] + t.2);
    lemma_bar_splits(s.1, s.2, t.1, t.2);
}

/// The bytes of a character that is not zero are not zero.
proof fn lemma_scalar_zero_free(c: u32)
    requires
        c != 0,
    ensures
        zero_free(encode_scalar(c)),
{
    assert(c <= 0x7f && c != 0 ==> ((c & 0x7f) as u8) != 0) by (bit_vector);
    let x = ((c >> 6) & 0x1f) as u8;
    let y = ((c >> 12) & 0x0f) as u8;
    let z = ((c >> 18) & 0x7) as u8;
    let p = (c & 0x3f) as u8;
    let q = ((c >> 6) & 0x3f) as u8;
    let r = ((c >> 12) & 0x3f) as u8;
    assert((0xc0 | x) != 0) by (bit_vector);
    assert((0xe0 | y) != 0) by (bit_vector);
    assert((0xf0 | z) != 0) by (bit_vector);
    assert((0x80 | p) != 0) by (bit_vector);
    assert((0x80 | q) != 0) by (bit_vector);
    assert((0x80 | r) != 0) by (bit_vector);
}

/// A text without zero characters has no zero bytes.
proof fn lemma_text_zero_free(s: Seq<char>)
    requires
        forall|i: int| 0 <= i < s.len() ==> #[trigger] s[i] != '\0',
    ensures
        zero_free(encode_utf8(s)),
    decreases s.len(),
{
    if s.len() > 0 {
        let rest = s.drop_first();
        assert(s[0] != '\0');
        assert forall|i: int| 0 <= i < rest.len() implies #[trigger] rest[i] != '\0' by {
            assert(s[i + 1] != '\0');
        }
        let c: char = s[0];
        vstd::utf8::char_is_scalar(c);
        vstd::utf8::char_u32_cast(c, c as u32);
        assert(c as u32 != 0) by {
            if c as u32 == 0 {
                assert(0u32 as char == '\0');
            }
        }
        lemma_scalar_zero_free(c as u32);
        lemma_text_zero_free(rest);
        let head = encode_scalar(s[0] as u32);
        let tail = encode_utf8(rest);
        assert forall|i: int| 0 <= i < encode_utf8(s).len() implies #[trigger] encode_utf8(s)[i]
            != 0 by {
            if i < head.len() {
                assert(head[i] != 0);
            } else {
                assert(tail[i - head.len()] != 0);
            }
        }
    }
}

/// The records of plain GPUs have no zero bytes.
proof fn lemma_record_zero_free(g: GpuInfoView)
    requires
        plain_identity(identity(g)),
    ensures
        zero_free(gpu_record(g)),
{
    reveal_strlit("|");
    assert("|"@ =~= seq!['|']);
    let s = gpu_text(g);
    assert forall|i: int| 0 <= i < s.len() implies #[trigger] s[i] != '\0' by {
        let n = g.name.len() as int;
        let u = g.uuid.len() as int;
        if i < n {
            assert(g.name[i] != '\0');
        } else if n < i < n + 1 + u {
            assert(g.uuid[i - n - 1] != '\0');
        } else if i > n + 1 + u {
            assert(g.pci_bus_id[i - n - u - 2] != '\0');
        }
    }
    lemma_text_zero_free(s);
}

/// The identity that a record tells of.
spec fn identity_of_record(r: Seq<u8>) -> (Seq<char>, Seq<char>, Seq<char>) {
    choose|t: (Seq<char>, Seq<char>, Seq<char>)|
        plain_identity(t) && #[trigger] encode_utf8(identity_text(t)) == r
}

proof fn lemma_identity_of_record(g: GpuInfoView)
    requires
        plain_identity(identity(g)),
    ensures
        identity_of_record(gpu_record(g)) == identity(g),
{
    let t = identity(g);
    assert(encode_utf8(identity_text(t)) == gpu_record(g));
    let found = identity_of_record(gpu_record(g));
    vstd::utf8::encode_utf8_decode_utf8(identity_text(t));
    vstd::utf8::encode_utf8_decode_utf8(identity_text(found));
    lemma_identity_text_injective(t, found);
}

/// The fingerprint changes when hardware is swapped, as far as the message goes:
/// two hosts whose GPUs have plain identities hash the same message only if they
/// have the same GPUs. That the digests of two messages differ is left to SHA-256.
pub proof fn swapped_hardware_changes_the_message(a: Seq<GpuInfoView>, b: Seq<GpuInfoView>)
    requires
        forall|i: int| 0 <= i < a.len() ==> plain_identity(identity(#[trigger] a[i])),
        forall|i: int| 0 <= i < b.len() ==> plain_identity(identity(#[trigger] b[i])),
        message(in_order(gpu_records(a))) == message(in_order(gpu_records(b))),
    ensures
        identities(a).to_multiset() == identities(b).to_multiset(),
{
    let le = |x: Seq<u8>, y: Seq<u8>| bytes_le(x, y);
    lemma_bytes_le_total();
    gpu_records(a).lemma_sort_by_ensures(le);
    gpu_records(b).lemma_sort_by_ensures(le);
    let x = in_order(gpu_records(a));
    let y = in_order(gpu_records(b));
    assert forall|i: int| 0 <= i < x.len() implies zero_free(#[trigger] x[i]) by {
        assert(x.contains(x[i]));
        assert(gpu_records(a).contains(x[i]));
        let k = gpu_records(a).index_of(x[i]);
        lemma_record_zero_free(a[k]);
    }
    assert forall|i: int| 0 <= i < y.len() implies zero_free(#[trigger] y[i]) by {
        assert(y.contains(y[i]));
        assert(gpu_records(b).contains(y[i]));
        let k = gpu_records(b).index_of(y[i]);
        lemma_record_zero_free(b[k]);
    }
    lemma_message_injective(x, y);
    let f = |r: Seq<u8>| identity_of_record(r);
    lemma_same_images(gpu_records(a), gpu_records(b), f);
    assert forall|i: int| 0 <= i < a.len() implies gpu_records(a).map_values(f)[i]
        == #[trigger] identities(a)[i] by {
        lemma_identity_of_record(a[i]);
    }
    assert forall|i: int| 0 <= i < b.len() implies gpu_records(b).map_values(f)[i]
        == #[trigger] identities(b)[i] by {
        lemma_identity_of_record(b[i]);
    }
    assert(gpu_records(a).map_values(f) =~= identities(a));
    assert(gpu_records(b).map_values(f) =~= identities(b));
}

// The score.

/// The scores of the known models, by a part of their name in lower case. The more
/// specific names come first.
pub open spec fn score_table() -> Seq<(Seq<char>, u64)> {
    seq![
        ("rtx 6000 ada"@, 90),
        ("rtx a6000"@, 78),
        ("rtx a5000"@, 55),
        ("rtx a4000"@, 40),
        ("h200"@, 320),
        ("h100"@, 300),
        ("a100"@, 160),
        ("l40s"@, 95),
        ("l40"@, 90),
        ("a40"@, 74),
        ("a30"@, 55),
        ("a10g"@, 32),
        ("a10"@, 30),
        ("l4"@, 24),
        ("v100"@, 28),
        ("t4"@, 16),
        ("4090"@, 42),
        ("4080"@, 30),
        ("4070 ti"@, 26),
        ("4070"@, 20),
        ("3090 ti"@, 31),
        ("3090"@, 27),
        ("3080"@, 24),
        ("3070"@, 17),
        ("2080 ti"@, 16),
    ]
}

/// The score of a model by its name in lower case: that of the first table row
/// whose name it holds.
pub open spec fn table_score_of(lower: Seq<char>) -> Option<u64> {
    match position(score_table(), |row: (Seq<char>, u64)| has_infix(lower, row.0)) {
        Some(i) => Some(score_table()[i].1),
        None => None,
    }
}

/// The score of a model by its name in lower case. An unknown card gets a low one:
/// it still ranks, but claiming it to be premium hardware does not pay.
pub open spec fn score_of(lower: Seq<char>) -> u64 {
    match table_score_of(lower) {
        Some(s) => s,
        None => 18,
    }
}

/// The lower-case form of a text.
pub uninterp spec fn lower_of(text: Seq<char>) -> Seq<char>;

/// `str::to_lowercase` is a function of the text, and on a text of ASCII characters
/// it puts the lower-case letter for each letter and keeps the rest. How it maps
/// characters beyond ASCII is left unsaid.
#[verifier::external_body]
fn lowercase(text: &str) -> (r: String)
    ensures
        r@ == lower_of(text@),
        ascii(text@) ==> r@ == fold(text@),
{
    text.to_lowercase()
}

/// A name in lower case.
pub open spec fn lowered(name: Seq<char>) -> Seq<char> {
    if ascii(name) {
        fold(name)
    } else {
        lower_of(name)
    }
}

/// The score of a known model by its name in lower case.
pub fn table_score(lower: &str) -> (r: Option<u64>)
    ensures
        r == table_score_of(lower@),
{
    let rows: [(&str, u64); 25] = [
        ("rtx 6000 ada", 90),
        ("rtx a6000", 78),
        ("rtx a5000", 55),
        ("rtx a4000", 40),
        ("h200", 320),
        ("h100", 300),
        ("a100", 160),
        ("l40s", 95),
        ("l40", 90),
        ("a40", 74),
        ("a30", 55),
        ("a10g", 32),
        ("a10", 30),
        ("l4", 24),
        ("v100", 28),
        ("t4", 16),
        ("4090", 42),
        ("4080", 30),
        ("4070 ti", 26),
        ("4070", 20),
        ("3090 ti", 31),
        ("3090", 27),
        ("3080", 24),
        ("3070", 17),
        ("2080 ti", 16),
    ];
    let ghost table = score_table();
    let ghost p = |row: (Seq<char>, u64)| has_infix(lower@, row.0);
    proof {
        assert forall|j: int| 0 <= j < 25 implies (#[trigger] table[j]).0 == rows@[j].0@ && table[j].1
            == rows@[j].1 by {}
    }
    let mut i: usize = 0;
    while i < 25
        invariant
            i <= 25,
            rows@.len() == 25,
            table == score_table(),
            table.len() == 25,
            p == (|row: (Seq<char>, u64)| has_infix(lower@, row.0)),
            forall|j: int|
                0 <= j < 25 ==> (#[trigger] table[j]).0 == rows@[j].0@ && table[j].1 == rows@[j].1,
            forall|j: int| 0 <= j < i ==> !p(#[trigger] table[j]),
        decreases 25 - i,
    {
        proof {
            assert(table[i as int].0 == rows@[i as int].0@);
        }
        if contains(lower, rows[i].0) {
            proof {
                lemma_position_is(table, p, i as int);
            }
            return Some(rows[i].1);
        }
        i += 1;
    }
    proof {
        lemma_position_none(table, p);
    }
    None
}

/// The score of a model by its name in lower case.
pub fn score(lower: &str) -> (r: u64)
    ensures
        r == score_of(lower@),
        r <= 320,
{
    proof {
        lemma_scores_bounded(lower@);
    }
    match table_score(lower) {
        Some(s) => s,
        None => 18,
    }
}

/// No score is above that of the fastest model.
pub proof fn lemma_scores_bounded(lower: Seq<char>)
    ensures
        16 <= score_of(lower) <= 320,
{
    let p = |row: (Seq<char>, u64)| has_infix(lower, row.0);
    lemma_position(score_table(), p);
    assert forall|j: int| 0 <= j < score_table().len() implies 16 <= (
    #[trigger] score_table()[j]).1 <= 320 by {}
}

/// Per-GPU `dlperf`, looked up by the model's name in any case.
pub fn lookup_dlperf(name: &str) -> (r: u64)
    ensures
        r == score_of(lowered(name@)),
{
    score(lowercase(name).as_str())
}

/// Tells whether the score of a model is known.
pub fn is_known_gpu(name: &str) -> (r: bool)
    ensures
        r == table_score_of(lowered(name@)) is Some,
{
    table_score(lowercase(name).as_str()).is_some()
}

/// Measured throughput on the same scale. No CUDA runtime is at hand to measure
/// with, so there is none.
pub fn gemm_score() -> (r: Option<u64>)
    ensures
        r is None,
{
    None
}

/// The sum of the scores of some GPUs.
pub open spec fn total_score(gs: Seq<GpuInfoView>) -> int
    decreases gs.len(),
{
    if gs.len() == 0 {
        0
    } else {
        total_score(gs.drop_last()) + score_of(lowered(gs.last().name))
    }
}

/// The score of a host: the measured one if there is one, else the sum over its
/// GPUs.
pub fn dlperf(gpus: &Vec<GpuInfo>) -> (r: u128)
    ensures
        r == total_score(gpu_views(gpus@)),
{
    if let Some(measured) = gemm_score() {
        return measured as u128;
    }
    let ghost gs = gpu_views(gpus@);
    let n: usize = gpus.len();
    let mut sum: u128 = 0;
    let mut k: usize = 0;
    proof {
        assert(gs.take(0) =~= Seq::empty());
    }
    while k < n
        invariant
            k <= n,
            n == gpus@.len(),
            gs == gpu_views(gpus@),
            sum == total_score(gs.take(k as int)),
            sum <= 320 * k,
        decreases n - k,
    {
        proof {
            assert(gs.take(k + 1).drop_last() =~= gs.take(k as int));
            assert(gs.take(k + 1).last() == gpus@[k as int]@);
            lemma_scores_bounded(lowered(gpus@[k as int].name@));
        }
        sum = sum + lookup_dlperf(gpus[k].name.as_str()) as u128;
        k += 1;
    }
    proof {
        assert(gs.take(k as int) =~= gs);
    }
    sum
}

/// The score is linear in the GPUs: two hosts put together score as much as both.
pub proof fn scores_add_up(a: Seq<GpuInfoView>, b: Seq<GpuInfoView>)
    ensures
        total_score(a + b) == total_score(a) + total_score(b),
    decreases b.len(),
{
    if b.len() == 0 {
        assert(a + b =~= a);
    } else {
        assert((a + b).drop_last() =~= a + b.drop_last());
        assert((a + b).last() == b.last());
        scores_add_up(a, b.drop_last());
    }
}

/// Case does not count: names that differ only in the case of their letters have
/// the same score, and are known or not alike.
pub proof fn case_does_not_count(a: Seq<char>, b: Seq<char>)
    requires
        ascii(a),
        ascii(b),
        fold(a) == fold(b),
    ensures
        score_of(lowered(a)) == score_of(lowered(b)),
        table_score_of(lowered(a)) == table_score_of(lowered(b)),
{
}

/// A name scores the same in lower case and in upper case.
pub proof fn names_score_in_any_case(name: Seq<char>)
    requires
        ascii(name),
    ensures
        score_of(lowered(fold(name))) == score_of(lowered(name)),
        score_of(lowered(raise(name))) == score_of(lowered(name)),
{
    assert forall|i: int| 0 <= i < name.len() implies #[trigger] fold(name)[i] <= '\u{7f}' by {
        assert(name[i] <= '\u{7f}');
    }
    assert forall|i: int| 0 <= i < name.len() implies #[trigger] raise(name)[i] <= '\u{7f}' by {
        assert(name[i] <= '\u{7f}');
    }
    assert(fold(fold(name)) =~= fold(name));
    assert(fold(raise(name)) =~= fold(name));
}

/// The score does not depend on the order in which the GPUs are found.
pub proof fn scores_ignore_order(a: Seq<GpuInfoView>, b: Seq<GpuInfoView>)
    requires
        a.to_multiset() == b.to_multiset(),
    ensures
        total_score(a) == total_score(b),
    decreases a.len(),
{
    broadcast use vstd::seq_lib::group_to_multiset_ensures;
    broadcast use vstd::multiset::group_multiset_axioms;

    vstd::seq_lib::to_multiset_len(a);
    vstd::seq_lib::to_multiset_len(b);
    if a.len() > 0 {
        let x = a.last();
        assert(a.contains(x));
        assert(b.to_multiset().count(x) > 0);
        assert(b.contains(x));
        let i = b.index_of(x);
        assert(a.remove(a.len() - 1) =~= a.drop_last());
        vstd::seq_lib::to_multiset_remove(a, a.len() - 1);
        vstd::seq_lib::to_multiset_remove(b, i);
        scores_ignore_order(a.drop_last(), b.remove(i));
        let one = seq![x];
        assert(total_score(one.drop_last()) == 0);
        assert(total_score(one) == score_of(lowered(x.name)));
        assert(b =~= b.take(i) + one + b.skip(i + 1));
        assert(b.remove(i) =~= b.take(i) + b.skip(i + 1));
        scores_add_up(b.take(i), one);
        scores_add_up(b.take(i) + one, b.skip(i + 1));
        scores_add_up(b.take(i), b.skip(i + 1));
    }
}

/// A host with some GPUs of one model scores that many times what one scores.
pub proof fn equal_gpus_multiply(gs: Seq<GpuInfoView>, name: Seq<char>)
    requires
        forall|i: int| 0 <= i < gs.len() ==> (#[trigger] gs[i]).name == name,
    ensures
        total_score(gs) == gs.len() * score_of(lowered(name)),
    decreases gs.len(),
{
    let one = score_of(lowered(name)) as int;
    let n = gs.len() as int;
    if n > 0 {
        let rest = gs.drop_last();
        assert forall|i: int| 0 <= i < rest.len() implies (#[trigger] rest[i]).name == name by {
            assert(rest[i] == gs[i]);
        }
        equal_gpus_multiply(rest, name);
        assert(gs.last() == gs[n - 1]);
        assert(n * one == (n - 1) * one + one) by (nonlinear_arith);
    } else {
        assert(n * one == 0) by (nonlinear_arith)
            requires
                n == 0,
        ;
    }
}

/// Every GPU counts: each one adds at least the lowest score and at most the highest.
pub proof fn every_gpu_counts(gs: Seq<GpuInfoView>)
    ensures
        16 * gs.len() <= total_score(gs) <= 320 * gs.len(),
    decreases gs.len(),
{
    if gs.len() > 0 {
        every_gpu_counts(gs.drop_last());
        lemma_scores_bounded(lowered(gs.last().name));
    }
}

/// A text that lacks a sign of another does not hold it.
proof fn lemma_lacks_sign(s: Seq<char>, needle: Seq<char>, j: int)
    requires
        0 <= j < needle.len(),
        forall|i: int| 0 <= i < s.len() ==> #[trigger] s[i] != needle[j],
    ensures
        !has_infix(s, needle),
{
    assert forall|i: int| !#[trigger] stands_at(s, needle, i) by {
        if stands_at(s, needle, i) {
            assert(s.subrange(i, i + needle.len())[j] == s[i + j]);
        }
    }
}

/// A text that lacks two neighbouring signs of another does not hold it.
proof fn lemma_lacks_pair(s: Seq<char>, needle: Seq<char>, j: int)
    requires
        0 <= j < needle.len() - 1,
        forall|i: int|
            0 <= i < s.len() - 1 && #[trigger] s[i] == needle[j] ==> s[i + 1] != needle[j + 1],
    ensures
        !has_infix(s, needle),
{
    assert forall|i: int| !#[trigger] stands_at(s, needle, i) by {
        if stands_at(s, needle, i) {
            assert(s.subrange(i, i + needle.len())[j] == s[i + j]);
            assert(s.subrange(i, i + needle.len())[j + 1] == s[i + j + 1]);
        }
    }
}

/// The anchor of the scale: an RTX 4090, its name written in whatever case, stands
/// at 42.
pub proof fn the_reference_card_stands_at_42(name: Seq<char>)
    requires
        ascii(name),
        fold(name) == "nvidia geforce rtx 4090"@,
    ensures
        score_of(lowered(name)) == 42,
{
    reveal_strlit("nvidia geforce rtx 4090");
    reveal_strlit("rtx 6000 ada");
    reveal_strlit("rtx a6000");
    reveal_strlit("rtx a5000");
    reveal_strlit("rtx a4000");
    reveal_strlit("h200");
    reveal_strlit("h100");
    reveal_strlit("a100");
    reveal_strlit("l40s");
    reveal_strlit("l40");
    reveal_strlit("a40");
    reveal_strlit("a30");
    reveal_strlit("a10g");
    reveal_strlit("a10");
    reveal_strlit("l4");
    reveal_strlit("v100");
    reveal_strlit("t4");
    reveal_strlit("4090");
    let s = "nvidia geforce rtx 4090"@;
    let p = |row: (Seq<char>, u64)| has_infix(s, row.0);
    assert forall|i: int| 0 <= i < s.len() implies #[trigger] s[i] != '1' && s[i] != '3' && s[i]
        != '5' && s[i] != '6' && s[i] != 'h' && s[i] != 'l' && (s[i] == 'a' ==> i == 5) && (s[i]
        == 't' ==> i == 16) by {
        assert(i == 0
            || i == 1
            || i == 2
            || i == 3
            || i == 4
            || i == 5
            || i == 6
            || i == 7
            || i == 8
            || i == 9
            || i == 10
            || i == 11
            || i == 12
            || i == 13
            || i == 14
            || i == 15
            || i == 16
            || i == 17
            || i == 18
            || i == 19
            || i == 20
            || i == 21
            || i == 22);
    }
    lemma_lacks_sign(s, "rtx 6000 ada"@, 4);
    lemma_lacks_sign(s, "rtx a6000"@, 5);
    lemma_lacks_sign(s, "rtx a5000"@, 5);
    lemma_lacks_pair(s, "rtx a4000"@, 4);
    lemma_lacks_sign(s, "h200"@, 0);
    lemma_lacks_sign(s, "h100"@, 0);
    lemma_lacks_sign(s, "a100"@, 1);
    lemma_lacks_sign(s, "l40s"@, 0);
    lemma_lacks_sign(s, "l40"@, 0);
    lemma_lacks_pair(s, "a40"@, 0);
    lemma_lacks_sign(s, "a30"@, 1);
    lemma_lacks_sign(s, "a10g"@, 1);
    lemma_lacks_sign(s, "a10"@, 1);
    lemma_lacks_sign(s, "l4"@, 0);
    lemma_lacks_sign(s, "v100"@, 1);
    lemma_lacks_pair(s, "t4"@, 0);
    assert(s.subrange(19, 23) =~= "4090"@);
    assert(stands_at(s, "4090"@, 19));
    assert forall|j: int| 0 <= j < 16 implies !p(#[trigger] score_table()[j]) by {}
    lemma_position_is(score_table(), p, 16);
}

/// Datacenter hardware outranks the reference card: an H100, its name written in
/// whatever case, stands at 300.
pub proof fn an_h100_outranks_the_reference_card(name: Seq<char>, reference: Seq<char>)
    requires
        ascii(name),
        ascii(reference),
        fold(name) == "nvidia h100 80gb hbm3"@,
        fold(reference) == "nvidia geforce rtx 4090"@,
    ensures
        score_of(lowered(name)) == 300,
        score_of(lowered(name)) > score_of(lowered(reference)),
{
    the_reference_card_stands_at_42(reference);
    reveal_strlit("nvidia h100 80gb hbm3");
    reveal_strlit("rtx 6000 ada");
    reveal_strlit("rtx a6000");
    reveal_strlit("rtx a5000");
    reveal_strlit("rtx a4000");
    reveal_strlit("h200");
    reveal_strlit("h100");
    let s = "nvidia h100 80gb hbm3"@;
    let p = |row: (Seq<char>, u64)| has_infix(s, row.0);
    assert forall|i: int| 0 <= i < s.len() implies #[trigger] s[i] != 'r' && s[i] != '2' by {
        assert(i == 0
            || i == 1
            || i == 2
            || i == 3
            || i == 4
            || i == 5
            || i == 6
            || i == 7
            || i == 8
            || i == 9
            || i == 10
            || i == 11
            || i == 12
            || i == 13
            || i == 14
            || i == 15
            || i == 16
            || i == 17
            || i == 18
            || i == 19
            || i == 20);
    }
    lemma_lacks_sign(s, "rtx 6000 ada"@, 0);
    lemma_lacks_sign(s, "rtx a6000"@, 0);
    lemma_lacks_sign(s, "rtx a5000"@, 0);
    lemma_lacks_sign(s, "rtx a4000"@, 0);
    lemma_lacks_sign(s, "h200"@, 1);
    assert(s.subrange(7, 11) =~= "h100"@);
    assert(stands_at(s, "h100"@, 7));
    assert forall|j: int| 0 <= j < 5 implies !p(#[trigger] score_table()[j]) by {}
    lemma_position_is(score_table(), p, 5);
}

/// Any number of reference cards scores 42 for each.
pub proof fn reference_cards_score_42_each(gs: Seq<GpuInfoView>)
    requires
        forall|i: int|
            0 <= i < gs.len() ==> ascii((#[trigger] gs[i]).name) && fold(gs[i].name)
                == "nvidia geforce rtx 4090"@,
    ensures
        total_score(gs) == 42 * gs.len(),
    decreases gs.len(),
{
    if gs.len() > 0 {
        let rest = gs.drop_last();
        assert forall|i: int| 0 <= i < rest.len() implies ascii((#[trigger] rest[i]).name) && fold(
            rest[i].name,
        ) == "nvidia geforce rtx 4090"@ by {
            assert(rest[i] == gs[i]);
        }
        reference_cards_score_42_each(rest);
        assert(gs.last() == gs[gs.len() - 1]);
        the_reference_card_stands_at_42(gs.last().name);
    }
}

/// The first row of the table whose name a model holds gives its score.
pub proof fn the_first_fitting_row_counts(lower: Seq<char>, j: int)
    requires
        0 <= j < score_table().len(),
        has_infix(lower, score_table()[j].0),
        forall|k: int| 0 <= k < j ==> !has_infix(lower, (#[trigger] score_table()[k]).0),
    ensures
        table_score_of(lower) == Some(score_table()[j].1),
        score_of(lower) == score_table()[j].1,
{
    lemma_position_is(score_table(), |row: (Seq<char>, u64)| has_infix(lower, row.0), j);
}

/// A model that no row fits is unknown and scores 18, and a name without a digit is
/// such a one.
pub proof fn an_unknown_model_scores_18(lower: Seq<char>)
    ensures
        (forall|k: int|
            0 <= k < score_table().len() ==> !has_infix(lower, (#[trigger] score_table()[k]).0))
            ==> table_score_of(lower) is None && score_of(lower) == 18,
        (forall|i: int| 0 <= i < lower.len() ==> !('0' <= #[trigger] lower[i] <= '9'))
            ==> table_score_of(lower) is None && score_of(lower) == 18,
{
    let p = |row: (Seq<char>, u64)| has_infix(lower, row.0);
    if forall|k: int|
        0 <= k < score_table().len() ==> !has_infix(lower, (#[trigger] score_table()[k]).0) {
        lemma_position_none(score_table(), p);
    }
    if forall|i: int| 0 <= i < lower.len() ==> !('0' <= #[trigger] lower[i] <= '9') {
        lemma_no_row_without_a_digit(lower);
        lemma_position_none(score_table(), p);
    }
}

proof fn lemma_no_row_without_a_digit(lower: Seq<char>)
    requires
        forall|i: int| 0 <= i < lower.len() ==> !('0' <= #[trigger] lower[i] <= '9'),
    ensures
        forall|k: int|
            0 <= k < score_table().len() ==> !has_infix(lower, (#[trigger] score_table()[k]).0),
{
    reveal_strlit("rtx 6000 ada");
    reveal_strlit("rtx a6000");
    reveal_strlit("rtx a5000");
    reveal_strlit("rtx a4000");
    reveal_strlit("h200");
    reveal_strlit("h100");
    reveal_strlit("a100");
    reveal_strlit("l40s");
    reveal_strlit("l40");
    reveal_strlit("a40");
    reveal_strlit("a30");
    reveal_strlit("a10g");
    reveal_strlit("a10");
    reveal_strlit("l4");
    reveal_strlit("v100");
    reveal_strlit("t4");
    reveal_strlit("4090");
    reveal_strlit("4080");
    reveal_strlit("4070 ti");
    reveal_strlit("4070");
    reveal_strlit("3090 ti");
    reveal_strlit("3090");
    reveal_strlit("3080");
    reveal_strlit("3070");
    reveal_strlit("2080 ti");
    lemma_lacks_sign(lower, "rtx 6000 ada"@, 4);
    lemma_lacks_sign(lower, "rtx a6000"@, 5);
    lemma_lacks_sign(lower, "rtx a5000"@, 5);
    lemma_lacks_sign(lower, "rtx a4000"@, 5);
    lemma_lacks_sign(lower, "h200"@, 1);
    lemma_lacks_sign(lower, "h100"@, 1);
    lemma_lacks_sign(lower, "a100"@, 1);
    lemma_lacks_sign(lower, "l40s"@, 1);
    lemma_lacks_sign(lower, "l40"@, 1);
    lemma_lacks_sign(lower, "a40"@, 1);
    lemma_lacks_sign(lower, "a30"@, 1);
    lemma_lacks_sign(lower, "a10g"@, 1);
    lemma_lacks_sign(lower, "a10"@, 1);
    lemma_lacks_sign(lower, "l4"@, 1);
    lemma_lacks_sign(lower, "v100"@, 1);
    lemma_lacks_sign(lower, "t4"@, 1);
    lemma_lacks_sign(lower, "4090"@, 0);
    lemma_lacks_sign(lower, "4080"@, 0);
    lemma_lacks_sign(lower, "4070 ti"@, 0);
    lemma_lacks_sign(lower, "4070"@, 0);
    lemma_lacks_sign(lower, "3090 ti"@, 0);
    lemma_lacks_sign(lower, "3090"@, 0);
    lemma_lacks_sign(lower, "3080"@, 0);
    lemma_lacks_sign(lower, "3070"@, 0);
    lemma_lacks_sign(lower, "2080 ti"@, 0);
}

/// The score of a host is told GPU by GPU.
pub proof fn every_gpu_adds_its_score(gs: Seq<GpuInfoView>, g: GpuInfoView)
    ensures
        total_score(Seq::empty()) == 0,
        total_score(gs.push(g)) == total_score(gs) + score_of(lowered(g.name)),
{
    assert(gs.push(g).drop_last() =~= gs);
}

/// A fingerprint is told byte by byte, each as two digits behind the earlier ones, and
/// its message GPU by GPU: name, id and place with bars between them, and a zero byte.
pub proof fn fingerprints_are_written_in_order(
    bytes: Seq<u8>,
    b: u8,
    records: Seq<Seq<u8>>,
    g: GpuInfoView,
)
    ensures
        hex_text(Seq::empty()) == Seq::<char>::empty(),
        hex_text(bytes.push(b)) == hex_text(bytes) + hex(b as nat, 2),
        message(Seq::empty()) == Seq::<u8>::empty(),
        message(records.push(gpu_record(g))) == message(records) + encode_utf8(
            g.name + "|"@ + g.uuid + "|"@ + g.pci_bus_id,
        ) + seq![0u8],
{
    assert(bytes.push(b).drop_last() =~= bytes);
    assert(records.push(gpu_record(g)).drop_last() =~= records);
}

/// Scores and fingerprints the GPUs that were found. A host without one has
/// nothing to offer.
pub fn probe(gpus: Vec<GpuInfo>) -> (r: Result<Inventory, String>)
    ensures
        match r {
            Ok(x) => gpus@.len() > 0 && x.gpus@ == gpus@ && x.dlperf == total_score(gpu_views(gpus@))
                && x.hw_fingerprint@ == fingerprint_of(gpu_views(gpus@)),
            Err(e) => gpus@.len() == 0 && e@ == "no NVIDIA GPU detected — nothing to offer"@,
        },
{
    if gpus.len() == 0 {
        return Err("no NVIDIA GPU detected — nothing to offer".to_owned());
    }
    let hw_fingerprint = fingerprint(&gpus);
    let dlperf: u128 = dlperf(&gpus);
    Ok(Inventory { gpus, dlperf, hw_fingerprint })
}

} // verus!
