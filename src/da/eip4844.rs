use vstd::prelude::*;

use crate::da::{gate, push_range, verify_commitment, BlobData, DaError};
use vstd::arithmetic::div_mod::{lemma_mod_multiples_basic, lemma_small_mod};

verus! {

/// Number of bytes in one blob: 4096 field elements.
pub const BYTES_PER_BLOB: usize = 131072;

/// Byte that marks the end of a payload inside its last field element.
pub const TERMINATOR: u8 = 0x80;

/// Number of field elements needed for a payload of `len` bytes.
pub open spec fn required_fe_spec(len: nat) -> nat {
    (len + 30) / 31
}

/// `n` zero bytes.
pub open spec fn zeros(n: nat) -> Seq<u8> {
    Seq::new(n, |i: int| 0u8)
}

/// Where the terminator stands in the payload bytes `b` of one field element:
/// the position of a `0x80` byte followed by nothing but zero bytes.
pub open spec fn terminator(b: Seq<u8>) -> Option<nat>
    decreases b.len(),
{
    if b.len() == 0 {
        None
    } else if b.last() == 0u8 {
        terminator(b.drop_last())
    } else if b.last() == TERMINATOR {
        Some((b.len() - 1) as nat)
    } else {
        None
    }
}

/// The field element that closes a payload whose last bytes are `rest`
/// (fewer than 31): leading zero, the bytes, the terminator, zero fill.
pub open spec fn closing_fe(rest: Seq<u8>) -> Seq<u8> {
    seq![0u8] + rest + seq![TERMINATOR] + zeros((30 - rest.len()) as nat)
}

/// The field elements that encode payload `d`: one element per 31 bytes,
/// each with a zero leading byte, then the closing element.
pub open spec fn encoded(d: Seq<u8>) -> Seq<u8>
    decreases d.len(),
{
    if d.len() < 31 {
        closing_fe(d)
    } else {
        seq![0u8] + d.take(31) + encoded(d.skip(31))
    }
}

/// No whole 31-byte chunk of `d` ends in a terminator followed by zero bytes,
/// so that decoding cannot stop inside the payload.
pub open spec fn chunks_unterminated(d: Seq<u8>) -> bool
    decreases d.len(),
{
    if d.len() < 31 {
        true
    } else {
        terminator(d.take(31)) is None && chunks_unterminated(d.skip(31))
    }
}

/// Decodes one payload from the front of the field elements `g`: the payload
/// and the elements after the one holding its terminator, or `None` when the
/// elements run out before a terminator.
pub open spec fn decode_front(g: Seq<u8>) -> Option<(Seq<u8>, Seq<u8>)>
    decreases g.len(),
{
    if g.len() < 32 {
        None
    } else {
        let p = g.subrange(1, 32);
        match terminator(p) {
            Some(k) => Some((p.take(k as int), g.skip(32))),
            None => match decode_front(g.skip(32)) {
                Some((r, rest)) => Some((p + r, rest)),
                None => None,
            },
        }
    }
}

/// Decodes payloads from `g` until `remaining` bytes have been decoded; `None`
/// when the elements run out first, or a payload has no terminator. (A decoded
/// payload always leaves fewer elements behind; the length test only makes
/// that visible to the termination check.)
pub open spec fn decode_many(g: Seq<u8>, remaining: int) -> Option<Seq<Seq<u8>>>
    decreases g.len(),
{
    if g.len() < 32 {
        if remaining > 0 {
            None
        } else {
            Some(Seq::empty())
        }
    } else {
        match decode_front(g) {
            None => None,
            Some((d, rest)) => if d.len() >= remaining {
                Some(seq![d])
            } else if rest.len() < g.len() {
                match decode_many(rest, remaining - d.len()) {
                    Some(t) => Some(seq![d] + t),
                    None => None,
                }
            } else {
                None
            },
        }
    }
}

/// Number of zero bytes that complete `n` bytes to whole blobs, with at
/// least one blob.
pub open spec fn fill_len(n: nat) -> nat {
    if n > 0 && n % 131072 == 0 {
        0
    } else {
        (131072 - n % 131072) as nat
    }
}

/// `g` zero-filled up to whole blobs, with at least one blob.
pub open spec fn padded(g: Seq<u8>) -> Seq<u8> {
    g + zeros(fill_len(g.len()))
}

/// The first blob of the grid `g`, zero-filled.
pub open spec fn first_blob(g: Seq<u8>) -> Seq<u8> {
    padded(g).take(131072)
}

/// Coder that packs payloads into 32-byte field elements, 31 payload bytes
/// after a zero leading byte each, closing each payload with a terminator
/// byte. The field counts the payload bytes coded so far.
///
/// Decoding cuts a payload short where one of its whole 31-byte chunks ends
/// in `0x80` followed only by zero bytes, as that reads as a terminator: the
/// round trip (`lemma_round_trip`) holds for payloads without such a chunk.
#[derive(Clone, Copy, Debug, Default)]
pub struct TerminationCoder(pub usize);

/// Appends `n` zero bytes to `out`.
fn push_zeros(out: &mut Vec<u8>, n: usize)
    ensures
        final(out)@ == old(out)@ + zeros(n as nat),
{
    let mut i: usize = 0;
    while i < n
        invariant
            i <= n,
            out@ == old(out)@ + zeros(i as nat),
        decreases n - i,
    {
        out.push(0);
        proof {
            assert(zeros((i + 1) as nat) =~= zeros(i as nat).push(0u8));
        }
        i += 1;
    }
}

/// Position of the terminator among the payload bytes of the field element
/// that starts at `off`.
fn find_terminator(g: &[u8], off: usize) -> (r: Option<usize>)
    requires
        off + 32 <= g@.len(),
    ensures
        match r {
            Some(k) => k < 31 && terminator(g@.subrange(off + 1, off + 32)) == Some(k as nat),
            None => terminator(g@.subrange(off + 1, off + 32)) is None,
        },
{
    let ghost p = g@.subrange(off + 1, off + 32);
    let mut k: usize = 31;
    assert(p.take(31) =~= p);
    while k > 0 && g[off + k] == 0
        invariant
            k <= 31,
            off + 32 <= g.len(),
            p == g@.subrange(off + 1, off + 32),
            terminator(p) == terminator(p.take(k as int)),
        decreases k,
    {
        proof {
            assert(p.take(k as int).drop_last() =~= p.take(k - 1));
        }
        k -= 1;
    }
    if k > 0 && g[off + k] == TERMINATOR {
        Some(k - 1)
    } else {
        proof {
            if k == 0 {
                assert(p.take(0).len() == 0);
            }
        }
        None
    }
}

impl TerminationCoder {
    /// Number of field elements `data` needs, rounding up to whole elements.
    pub fn required_fe(&self, data: &[u8]) -> (r: usize)
        ensures
            r as nat == required_fe_spec(data@.len()),
    {
        let n = data.len();
        n / 31 + if n % 31 == 0 {
            0
        } else {
            1
        }
    }

    /// Appends the field elements that encode `data` to `grid`, and counts
    /// its bytes.
    pub fn code(&mut self, grid: &mut Vec<u8>, data: &[u8])
        requires
            old(self).0 + data@.len() <= usize::MAX,
        ensures
            final(grid)@ == old(grid)@ + encoded(data@),
            final(self).0 == old(self).0 + data@.len(),
    {
        let mut pos: usize = 0;
        let n = data.len();
        assert(data@.skip(0) =~= data@);
        loop
            invariant
                pos <= n == data@.len(),
                old(self).0 + data@.len() <= usize::MAX,
                self.0 == old(self).0 + pos,
                old(grid)@ + encoded(data@) == grid@ + encoded(data@.skip(pos as int)),
            decreases n - pos,
        {
            let ghost rest = data@.skip(pos as int);
            if n - pos < 31 {
                grid.push(0);
                push_range(grid, data, pos, n);
                grid.push(TERMINATOR);
                push_zeros(grid, 30 - (n - pos));
                self.0 = self.0 + (n - pos);
                proof {
                    assert(data@.subrange(pos as int, n as int) =~= rest);
                    assert(grid@ =~= old(grid)@ + encoded(data@));
                }
                return;
            }
            grid.push(0);
            push_range(grid, data, pos, pos + 31);
            self.0 = self.0 + 31;
            proof {
                assert(data@.subrange(pos as int, pos + 31) =~= rest.take(31));
                assert(rest.skip(31) =~= data@.skip(pos + 31));
            }
            pos = pos + 31;
        }
    }
}


/// Decodes one payload from the field elements of `g` that start at byte
/// `start`: the payload and where the next element starts.
fn decode_one(g: &[u8], start: usize) -> (r: Option<(Vec<u8>, usize)>)
    requires
        start <= g@.len(),
    ensures
        match r {
            Some((d, next)) => {
                &&& decode_front(g@.skip(start as int)) == Some((d@, g@.skip(next as int)))
                &&& start < next <= g@.len()
            },
            None => decode_front(g@.skip(start as int)) is None,
        },
{
    let mut res: Vec<u8> = Vec::new();
    let mut pos = start;
    loop
        invariant
            start <= pos <= g.len(),
            decode_front(g@.skip(start as int)) == match decode_front(g@.skip(pos as int)) {
                Some((r, rest)) => Some((res@ + r, rest)),
                None => None,
            },
        decreases g.len() - pos,
    {
        let ghost t = g@.skip(pos as int);
        if g.len() - pos < 32 {
            return None;
        }
        let ghost p = g@.subrange(pos + 1, pos + 32);
        assert(t.subrange(1, 32) =~= p);
        assert(t.skip(32) =~= g@.skip(pos + 32));
        match find_terminator(g, pos) {
            Some(k) => {
                push_range(&mut res, g, pos + 1, pos + 1 + k);
                assert(g@.subrange(pos + 1, pos + 1 + k) =~= p.take(k as int));
                return Some((res, pos + 32));
            },
            None => {
                let ghost before = res@;
                push_range(&mut res, g, pos + 1, pos + 32);
                proof {
                    match decode_front(g@.skip(pos + 32)) {
                        Some((r, rest)) => {
                            assert(before + (p + r) =~= res@ + r);
                        },
                        None => {},
                    }
                }
                pos = pos + 32;
            },
        }
    }
}

impl TerminationCoder {
    /// Decodes the payloads packed into the field elements of `grid`, until
    /// the bytes decoded reach the count this coder holds. `None` when the
    /// elements run out before that, or a payload has no terminator.
    pub fn decode_all(&self, grid: &[u8]) -> (r: Option<Vec<Vec<u8>>>)
        ensures
            match r {
                Some(v) => decode_many(grid@, self.0 as int) == Some(v@.map_values(|x: Vec<u8>| x@)),
                None => decode_many(grid@, self.0 as int) is None,
            },
    {
        let mut res: Vec<Vec<u8>> = Vec::new();
        let mut pos: usize = 0;
        let mut need = self.0;
        let ghost acc: Seq<Seq<u8>> = Seq::empty();
        assert(grid@.skip(0) =~= grid@);
        loop
            invariant
                pos <= grid.len(),
                acc =~= res@.map_values(|x: Vec<u8>| x@),
                decode_many(grid@, self.0 as int) == match decode_many(
                    grid@.skip(pos as int),
                    need as int,
                ) {
                    Some(t) => Some(acc + t),
                    None => None,
                },
            decreases grid.len() - pos,
        {
            if grid.len() - pos < 32 {
                if need > 0 {
                    return None;
                }
                assert(acc + Seq::<Seq<u8>>::empty() =~= acc);
                return Some(res);
            }
            match decode_one(grid, pos) {
                None => {
                    return None;
                },
                Some((d, next)) => {
                    let dl = d.len();
                    let ghost dv = d@;
                    res.push(d);
                    proof {
                        acc = acc.push(dv);
                        assert(acc =~= res@.map_values(|x: Vec<u8>| x@));
                    }
                    if dl >= need {
                        assert(acc =~= acc.subrange(0, acc.len() - 1) + seq![dv]);
                        return Some(res);
                    }
                    proof {
                        let prev = acc.drop_last();
                        match decode_many(grid@.skip(next as int), need - dl) {
                            Some(u) => {
                                assert(prev + (seq![dv] + u) =~= acc + u);
                            },
                            None => {},
                        }
                    }
                    need = need - dl;
                    pos = next;
                },
            }
        }
    }
}

proof fn lemma_terminator_zeros(x: Seq<u8>, n: nat)
    ensures
        terminator(x + zeros(n)) == terminator(x),
    decreases n,
{
    if n == 0 {
        assert(x + zeros(0) =~= x);
    } else {
        lemma_terminator_zeros(x, (n - 1) as nat);
        assert((x + zeros(n)).drop_last() =~= x + zeros((n - 1) as nat));
    }
}

proof fn lemma_decode_front_encoded(d: Seq<u8>, tail: Seq<u8>)
    requires
        chunks_unterminated(d),
    ensures
        decode_front(encoded(d) + tail) == Some((d, tail)),
    decreases d.len(),
{
    let g = encoded(d) + tail;
    if d.len() < 31 {
        let p = d + seq![TERMINATOR] + zeros((30 - d.len()) as nat);
        assert(g.subrange(1, 32) =~= p);
        lemma_terminator_zeros(d + seq![TERMINATOR], (30 - d.len()) as nat);
        assert((d + seq![TERMINATOR]).drop_last() =~= d);
        assert(p.take(d.len() as int) =~= d);
        assert(g.skip(32) =~= tail);
    } else {
        lemma_decode_front_encoded(d.skip(31), tail);
        assert(g.subrange(1, 32) =~= d.take(31));
        assert(g.skip(32) =~= encoded(d.skip(31)) + tail);
        assert(d.take(31) + d.skip(31) =~= d);
    }
}

/// Round trip of the codec: the field elements that encode `d`, followed by
/// any fill, decode back to exactly `[d]` when the decoder expects `d.len()`
/// bytes. It holds for every payload whose whole 31-byte chunks do not end in
/// a terminator followed by zero bytes, the empty payload and lengths that
/// are multiples of 31 included.
pub proof fn lemma_round_trip(d: Seq<u8>, fill: Seq<u8>)
    requires
        chunks_unterminated(d),
    ensures
        decode_many(encoded(d) + fill, d.len() as int) == Some(seq![d]),
{
    lemma_decode_front_encoded(d, fill);
    let g = encoded(d) + fill;
    if d.len() < 31 {
        assert(g.len() >= 32);
    } else {
        assert(g.len() >= 32);
    }
}


/// Seconds per beacon chain slot.
pub const SLOT_SECONDS: u64 = 12;

/// The field elements that encode `data`.
pub fn encode(data: &[u8]) -> (r: Vec<u8>)
    ensures
        r@ == encoded(data@),
{
    // A slice's length fits in usize, so a fresh coder cannot overflow.
    assert(data@.len() <= data.len());
    let mut grid: Vec<u8> = Vec::new();
    let mut coder = TerminationCoder(0);
    coder.code(&mut grid, data);
    assert(grid@ =~= encoded(data@));
    grid
}

/// Zero-fills the field elements `grid` up to whole blobs.
pub fn blobs(grid: &[u8]) -> (r: Vec<u8>)
    ensures
        r@ == padded(grid@),
{
    let mut out: Vec<u8> = Vec::new();
    push_range(&mut out, grid, 0, grid.len());
    let n = grid.len();
    let fill = if n > 0 && n % BYTES_PER_BLOB == 0 {
        0
    } else {
        BYTES_PER_BLOB - n % BYTES_PER_BLOB
    };
    push_zeros(&mut out, fill);
    assert(grid@.subrange(0, n as int) =~= grid@);
    out
}

/// The first blob of the field elements `grid`, zero-filled.
fn first_blob_of(grid: &[u8]) -> (r: Vec<u8>)
    ensures
        r@ == first_blob(grid@),
        r@.len() == BYTES_PER_BLOB,
{
    let n = grid.len();
    let mut out: Vec<u8> = Vec::new();
    if n >= BYTES_PER_BLOB {
        push_range(&mut out, grid, 0, BYTES_PER_BLOB);
        assert(padded(grid@).take(131072) =~= grid@.subrange(0, 131072));
    } else {
        push_range(&mut out, grid, 0, n);
        push_zeros(&mut out, BYTES_PER_BLOB - n);
        proof {
            lemma_small_mod(n as nat, 131072);
        }
        assert(grid@.subrange(0, n as int) =~= grid@);
        assert(padded(grid@).take(131072) =~= out@);
    }
    out
}

/// The KZG commitment of one blob under the mainnet trusted setup.
pub uninterp spec fn kzg_commitment_of(blob: Seq<u8>) -> Seq<u8>;

/// The leading byte of field element `i` of `blob`.
pub open spec fn leading_byte(blob: Seq<u8>, i: int) -> u8 {
    blob[32 * i]
}

/// Relies on c_kzg's `KzgCommitment::blob_to_kzg_commitment`, run with
/// alloy's default (mainnet) trusted setup: the 48-byte commitment of the
/// blob, a function of its bytes alone. It fails only for a field element at
/// or above the field modulus, which no element with a zero leading byte is
/// (running out of memory aside, which the library treats, as it does for
/// every allocation, as not returning).
#[verifier::external_body]
fn kzg_commit(blob: &[u8]) -> (r: Option<Vec<u8>>)
    requires
        blob@.len() == BYTES_PER_BLOB,
    ensures
        match r {
            Some(c) => c@ == kzg_commitment_of(blob@) && c@.len() == 48,
            None => true,
        },
        (forall|i: int| 0 <= i < 4096 ==> #[trigger] leading_byte(blob@, i) == 0) ==> r is Some,
{
    let blob = c_kzg::Blob::from_bytes(blob).ok()?;
    let settings = alloy::eips::eip4844::env_settings::EnvKzgSettings::Default.get();
    let commitment = c_kzg::KzgCommitment::blob_to_kzg_commitment(&blob, settings).ok()?;
    Some(commitment.to_bytes().into_inner().to_vec())
}

/// Every field element of an encoding starts with a zero byte.
proof fn lemma_encoded_leading_zeros(d: Seq<u8>)
    ensures
        encoded(d).len() % 32 == 0,
        forall|j: int| 0 <= j < encoded(d).len() && j % 32 == 0 ==> #[trigger] encoded(d)[j] == 0,
    decreases d.len(),
{
    if d.len() < 31 {
        assert(encoded(d).len() == 32);
        assert forall|j: int| 0 <= j < encoded(d).len() && j % 32 == 0 implies #[trigger] encoded(
            d,
        )[j] == 0 by {
            assert(j == 0);
        }
    } else {
        let rest = encoded(d.skip(31));
        lemma_encoded_leading_zeros(d.skip(31));
        let head = seq![0u8] + d.take(31);
        assert(encoded(d) == head + rest);
        assert forall|j: int| 0 <= j < encoded(d).len() && j % 32 == 0 implies #[trigger] encoded(
            d,
        )[j] == 0 by {
            if j > 0 {
                assert(j >= 32);
                assert((j - 32) % 32 == 0);
                assert(encoded(d)[j] == rest[j - 32]);
            }
        }
    }
}

/// Every field element of the first blob of an encoding starts with a zero
/// byte.
proof fn lemma_first_blob_leading_zeros(d: Seq<u8>)
    ensures
        first_blob(encoded(d)).len() == BYTES_PER_BLOB ==> forall|i: int|
            0 <= i < 4096 ==> #[trigger] leading_byte(first_blob(encoded(d)), i) == 0,
{
    let g = encoded(d);
    lemma_encoded_leading_zeros(d);
    if first_blob(g).len() == BYTES_PER_BLOB {
        assert forall|i: int| 0 <= i < 4096 implies #[trigger] leading_byte(first_blob(g), i) == 0 by {
            lemma_mod_multiples_basic(i, 32);
            assert((i * 32) % 32 == 0);
            assert(32 * i == i * 32);
            assert(first_blob(g)[32 * i] == padded(g)[32 * i]);
            if 32 * i >= g.len() {
                assert(padded(g)[32 * i] == zeros(fill_len(g.len()))[32 * i - g.len()]);
            } else {
                assert(padded(g)[32 * i] == g[32 * i]);
            }
        }
    }
}

/// The commitment the blob-transaction backend derives for payload `data`:
/// that of the first blob of its field elements.
pub open spec fn blob_tx_commitment_of(data: Seq<u8>) -> Seq<u8> {
    kzg_commitment_of(first_blob(encoded(data)))
}

/// What the blob-transaction backend submits: the blobs and the commitment
/// they were checked against.
pub struct BlobTxSubmission {
    pub blobs: Vec<u8>,
    pub commitment: Vec<u8>,
}

/// Derives the commitment of `data` as the blob-transaction backend does.
pub fn blob_tx_commitment(data: &[u8]) -> (r: Vec<u8>)
    ensures
        r@ == blob_tx_commitment_of(data@),
        r@.len() == 48,
{
    let grid = encode(data);
    let blob = first_blob_of(&grid);
    proof {
        lemma_first_blob_leading_zeros(data@);
    }
    match kzg_commit(&blob) {
        Some(c) => c,
        None => {
            proof {
                assert(false);
            }
            Vec::new()
        },
    }
}

/// The outcome of a blob-transaction submission of `data` against the
/// commitment `provided`, given the commitment `derived` from it.
pub open spec fn blob_tx_outcome(provided: Seq<u8>, data: Seq<u8>, derived: Seq<u8>) -> Result<
    (Seq<u8>, Seq<u8>),
    DaError,
> {
    match gate(provided, derived) {
        Ok(_) => Ok((padded(encoded(data)), derived)),
        Err(e) => Err(e),
    }
}

/// Gates a blob-transaction submission of `data` on the commitment `derived`
/// from it, and builds the blobs to send.
pub fn prepare_blob_tx_with(provided: &[u8], data: &[u8], derived: Vec<u8>) -> (r: Result<
    BlobTxSubmission,
    DaError,
>)
    ensures
        match r {
            Ok(s) => blob_tx_outcome(provided@, data@, derived@) == Ok::<
                (Seq<u8>, Seq<u8>),
                DaError,
            >((s.blobs@, s.commitment@)),
            Err(e) => blob_tx_outcome(provided@, data@, derived@) == Err::<
                (Seq<u8>, Seq<u8>),
                DaError,
            >(e),
        },
{
    match verify_commitment(provided, &derived) {
        Err(e) => Err(e),
        Ok(()) => {
            let grid = encode(data);
            Ok(BlobTxSubmission { blobs: blobs(&grid), commitment: derived })
        },
    }
}

/// Derives the commitment of the payload as the blob-transaction backend
/// does, gates the submission on it and builds the blobs to send. The
/// namespace is not used.
pub fn prepare_blob_tx(provided: &[u8], blob: BlobData) -> (r: Result<BlobTxSubmission, DaError>)
    ensures
        (r is Ok) == (provided@ == blob_tx_commitment_of(blob.data@)),
        match r {
            Ok(s) => {
                &&& s.commitment@ == provided@
                &&& s.blobs@ == padded(encoded(blob.data@))
            },
            Err(e) => e == DaError::CommitmentMismatch,
        },
{
    let derived = blob_tx_commitment(&blob.data);
    prepare_blob_tx_with(provided, &blob.data, derived)
}

/// The slot of the beacon block for an execution block: the parent beacon
/// block's slot plus the whole slots between the two timestamps, or `None`
/// when the block precedes its parent or the slot does not fit.
pub open spec fn slot_of(parent_slot: u64, block_timestamp: u64, parent_timestamp: u64) -> Option<u64> {
    if block_timestamp < parent_timestamp {
        None
    } else {
        let s = parent_slot + (block_timestamp - parent_timestamp) / 12;
        if s > u64::MAX {
            None
        } else {
            Some(s as u64)
        }
    }
}

/// Computes the beacon slot of the block that included a blob transaction.
pub fn beacon_block_slot(parent_slot: u64, block_timestamp: u64, parent_timestamp: u64) -> (r: Result<
    u64,
    DaError,
>)
    ensures
        match slot_of(parent_slot, block_timestamp, parent_timestamp) {
            Some(s) => r == Ok::<u64, DaError>(s),
            None => r == Err::<u64, DaError>(DaError::InconsistentBlock),
        },
{
    if block_timestamp < parent_timestamp {
        return Err(DaError::InconsistentBlock);
    }
    let diff = (block_timestamp - parent_timestamp) / SLOT_SECONDS;
    match parent_slot.checked_add(diff) {
        Some(s) => Ok(s),
        None => Err(DaError::InconsistentBlock),
    }
}

/// Proof of publication by the blob-transaction backend.
pub struct Eip4844Receipt {
    pub beacon_block_slot: u64,
    pub commitment: Vec<u8>,
}

} // verus!
