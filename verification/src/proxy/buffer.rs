//! Splitting outgoing bytes into fragments: blindly, or as a series of
//! well-formed TLS records that carry one handshake between them.

use vstd::prelude::*;

verus! {

/// `s` cut into consecutive pieces of `n` bytes; the last piece holds what is
/// left and may be shorter. An empty `s` gives no pieces.
pub open spec fn chunks_of(s: Seq<u8>, n: nat) -> Seq<Seq<u8>>
    decreases s.len(),
{
    if s.len() == 0 || n == 0 {
        seq![]
    } else if s.len() <= n {
        seq![s]
    } else {
        seq![s.take(n as int)] + chunks_of(s.skip(n as int), n)
    }
}

/// The two length bytes of a TLS record header for a fragment of `len`
/// bytes: the length taken as a 16-bit number, high byte first.
pub open spec fn length_bytes(len: nat) -> Seq<u8> {
    seq![((len % 65536) / 256) as u8, (len % 256) as u8]
}

/// A TLS record that carries `fragment` under the content type and version
/// in `prefix`.
pub open spec fn tls_record(prefix: Seq<u8>, fragment: Seq<u8>) -> Seq<u8> {
    prefix + length_bytes(fragment.len()) + fragment
}

/// What `tls_record_fragmentation` makes of `s`: nothing of an empty buffer;
/// a buffer of at most five bytes (no room for a payload behind the record
/// header) unchanged; otherwise one record per `n`-byte piece of the payload
/// behind the five header bytes, each under the first three header bytes.
pub open spec fn tls_fragments(s: Seq<u8>, n: nat) -> Seq<Seq<u8>> {
    if s.len() == 0 {
        seq![]
    } else if s.len() <= 5 {
        seq![s]
    } else {
        chunks_of(s.skip(5), n).map_values(|c: Seq<u8>| tls_record(s.take(3), c))
    }
}

/// The contents of each vector in `v`.
pub open spec fn views(v: Seq<Vec<u8>>) -> Seq<Seq<u8>> {
    v.map_values(|c: Vec<u8>| c@)
}

/// A new vector holding `buf[from..to]`.
fn copy_range(buf: &Vec<u8>, from: usize, to: usize) -> (r: Vec<u8>)
    requires
        from <= to <= buf.len(),
    ensures
        r@ == buf@.subrange(from as int, to as int),
{
    let mut r: Vec<u8> = Vec::with_capacity(to - from);
    let mut i = from;
    while i < to
        invariant
            from <= i <= to <= buf.len(),
            r@ == buf@.subrange(from as int, i as int),
        decreases to - i,
    {
        r.push(buf[i]);
        i = i + 1;
    }
    r
}

/// Cuts `buffer` into consecutive pieces of `chunk_size` bytes, the last one
/// holding what is left, for blind TCP segmentation.
pub fn buffer_to_chunks(buffer: &Vec<u8>, chunk_size: usize) -> (r: Vec<Vec<u8>>)
    requires
        buffer.len() == 0 || chunk_size > 0,
    ensures
        views(r@) == chunks_of(buffer@, chunk_size as nat),
{
    let mut result: Vec<Vec<u8>> = Vec::new();
    let mut i: usize = 0;
    let len = buffer.len();
    proof {
        assert(buffer@.skip(0) =~= buffer@);
    }
    while i < len
        invariant
            i <= len == buffer.len(),
            i < len ==> chunk_size > 0,
            views(result@) + chunks_of(buffer@.skip(i as int), chunk_size as nat) == chunks_of(
                buffer@,
                chunk_size as nat,
            ),
        decreases len - i,
    {
        let end = if len - i <= chunk_size {
            len
        } else {
            i + chunk_size
        };
        let piece = copy_range(buffer, i, end);
        let ghost rest = buffer@.skip(i as int);
        let ghost before = views(result@);
        result.push(piece);
        proof {
            assert(views(result@) =~= before.push(piece@));
            if len - i <= chunk_size {
                assert(piece@ =~= rest);
                assert(buffer@.skip(end as int).len() == 0);
                assert(chunks_of(rest, chunk_size as nat) == seq![rest]);
                assert(before.push(piece@) =~= before + seq![rest]);
            } else {
                assert(piece@ =~= rest.take(chunk_size as int));
                assert(rest.skip(chunk_size as int) =~= buffer@.skip(end as int));
                assert(before + chunks_of(rest, chunk_size as nat) =~= before.push(piece@)
                    + chunks_of(buffer@.skip(end as int), chunk_size as nat));
            }
        }
        i = end;
    }
    proof {
        assert(chunks_of(buffer@.skip(len as int), chunk_size as nat) =~= Seq::<Seq<u8>>::empty());
        assert(views(result@) + Seq::<Seq<u8>>::empty() =~= views(result@));
    }
    result
}

/// The TLS record that carries `fragment` under the first three bytes of
/// `header`.
fn make_record(header: &Vec<u8>, fragment: &Vec<u8>) -> (r: Vec<u8>)
    requires
        header.len() >= 3,
        fragment.len() + 5 <= usize::MAX,
    ensures
        r@ == tls_record(header@.take(3), fragment@),
{
    let len = fragment.len();
    let ghost t = tls_record(header@.take(3), fragment@);
    let mut record: Vec<u8> = Vec::with_capacity(5 + len);
    record.push(header[0]);
    record.push(header[1]);
    record.push(header[2]);
    record.push(((len % 65536) / 256) as u8);
    record.push((len % 256) as u8);
    assert(record@ =~= t.take(5));
    let mut i: usize = 0;
    while i < len
        invariant
            len == fragment.len(),
            header.len() >= 3,
            t == tls_record(header@.take(3), fragment@),
            t.len() == 5 + len,
            i <= len,
            record@ == t.take(5 + i),
        decreases len - i,
    {
        assert(t[5 + i] == fragment@[i as int]);
        record.push(fragment[i]);
        i = i + 1;
        assert(record@ =~= t.take(5 + i));
    }
    proof {
        assert(record@ =~= tls_record(header@.take(3), fragment@));
    }
    record
}

/// Re-frames a TLS record (the ClientHello) as several records of at most
/// `chunk_size` payload bytes each, all under the incoming content type and
/// version, so that the handshake they carry together is unchanged.
pub fn tls_record_fragmentation(buffer: &Vec<u8>, chunk_size: usize) -> (r: Vec<Vec<u8>>)
    requires
        buffer.len() <= 5 || chunk_size > 0,
    ensures
        views(r@) == tls_fragments(buffer@, chunk_size as nat),
{
    let len = buffer.len();
    if len == 0 {
        let r: Vec<Vec<u8>> = Vec::new();
        assert(views(r@) =~= Seq::<Seq<u8>>::empty());
        return r;
    }
    if len <= 5 {
        let mut r: Vec<Vec<u8>> = Vec::new();
        let whole = copy_range(buffer, 0, len);
        assert(whole@ =~= buffer@);
        r.push(whole);
        assert(views(r@) =~= seq![buffer@]);
        return r;
    }
    let payload = copy_range(buffer, 5, len);
    let pieces = buffer_to_chunks(&payload, chunk_size);
    let ghost expected = tls_fragments(buffer@, chunk_size as nat);
    let ghost prefix = buffer@.take(3);
    let mut result: Vec<Vec<u8>> = Vec::new();
    let mut k: usize = 0;
    proof {
        assert(payload@ =~= buffer@.skip(5));
        lemma_chunks_bounded(payload@, chunk_size as nat);
        assert forall|j: int| 0 <= j < pieces.len() implies (#[trigger] pieces@[j])@.len()
            <= payload@.len() by {
            assert(views(pieces@)[j] == pieces@[j]@);
        }
        assert(views(result@) =~= expected.take(0));
    }
    while k < pieces.len()
        invariant
            len == buffer.len() > 5,
            k <= pieces.len(),
            prefix == buffer@.take(3),
            views(pieces@) == chunks_of(payload@, chunk_size as nat),
            payload@ == buffer@.skip(5),
            forall|j: int|
                0 <= j < pieces.len() ==> (#[trigger] pieces@[j])@.len() <= payload@.len(),
            expected == tls_fragments(buffer@, chunk_size as nat),
            expected.len() == pieces.len(),
            views(result@) == expected.take(k as int),
        decreases pieces.len() - k,
    {
        let piece = &pieces[k];
        assert(views(pieces@)[k as int] == piece@);
        let record = make_record(buffer, piece);
        let ghost before = views(result@);
        result.push(record);
        proof {
            assert(expected[k as int] == tls_record(prefix, piece@));
            assert(views(result@) =~= before.push(record@));
            assert(views(result@) =~= expected.take(k + 1));
        }
        k = k + 1;
    }
    assert(expected.take(k as int) =~= expected);
    result
}

/// `rand::random_range(lo..=hi)`: a random number from `lo` to `hi`, both
/// included, drawn from the thread-local generator. Nothing more is claimed
/// of the number.
#[verifier::external_body]
fn random_between(lo: u64, hi: u64) -> (r: u64)
    requires
        lo <= hi,
    ensures
        lo <= r <= hi,
{
    rand::random_range(lo..=hi)
}

/// The pause, in milliseconds, between two fragments sent upstream, which
/// keeps them from being coalesced: random, from 2 to 8.
pub fn fragment_pause_millis() -> (r: u64)
    ensures
        2 <= r <= 8,
{
    random_between(2, 8)
}

/// Every piece of `chunks_of(s, n)` is a non-empty run of at most `n`
/// bytes, every piece but the last has exactly `n` bytes, and there are
/// as many pieces as `n`-byte steps are needed to cover `s`.
pub proof fn lemma_chunks_bounded(s: Seq<u8>, n: nat)
    requires
        n > 0,
    ensures
        chunks_of(s, n).len() == (if s.len() == 0 {
            0
        } else {
            (s.len() - 1) as nat / n + 1
        }),
        forall|k: int|
            0 <= k < chunks_of(s, n).len() ==> 0 < (#[trigger] chunks_of(s, n)[k]).len() <= n
                && chunks_of(s, n)[k].len() <= s.len() && (k + 1 < chunks_of(s, n).len() ==> chunks_of(s, n)[k].len() == n),
    decreases s.len(),
{
    if s.len() > n {
        let rest = s.skip(n as int);
        lemma_chunks_bounded(rest, n);
        let c = chunks_of(s, n);
        let cr = chunks_of(rest, n);
        assert(c =~= seq![s.take(n as int)] + cr);
        assert((s.len() - 1) as nat / n == (rest.len() - 1) as nat / n + 1) by {
            lemma_div_step((rest.len() - 1) as nat, n);
        }
        assert forall|k: int| 0 <= k < c.len() implies 0 < (#[trigger] c[k]).len() <= n
            && c[k].len() <= s.len() && (k + 1 < c.len() ==> c[k].len() == n) by {
            if k > 0 {
                assert(c[k] == cr[k - 1]);
            }
        }
    } else if s.len() > 0 {
        assert((s.len() - 1) as nat / n == 0) by {
            vstd::arithmetic::div_mod::lemma_basic_div_specific_divisor(n as int);
        }
    }
}

/// Joining the pieces of a blind split in order gives back the bytes that
/// were split: fragmentation never adds, drops or reorders a byte.
pub proof fn lemma_chunks_reassemble(s: Seq<u8>, n: nat)
    requires
        n > 0,
    ensures
        chunks_of(s, n).flatten() == s,
    decreases s.len(),
{
    let c = chunks_of(s, n);
    if s.len() == 0 {
    } else if s.len() <= n {
        assert(c.drop_first() =~= Seq::<Seq<u8>>::empty());
        assert(c.flatten() == c.first() + c.drop_first().flatten());
        assert(s + Seq::<u8>::empty() =~= s);
    } else {
        lemma_chunks_reassemble(s.skip(n as int), n);
        assert(c.drop_first() =~= chunks_of(s.skip(n as int), n));
        assert(s.take(n as int) + s.skip(n as int) =~= s);
    }
}

/// The payloads (bytes behind the five-byte header) of the records in `records`.
pub open spec fn record_payloads(records: Seq<Seq<u8>>) -> Seq<Seq<u8>> {
    records.map_values(|r: Seq<u8>| r.skip(5))
}

/// When a ClientHello record of more than five bytes is re-framed with a
/// fragment size that a 16-bit length can express, every record produced is
/// well formed: it starts with the incoming content type and version, its
/// length field equals the number of payload bytes that follow, and it
/// carries at most `n` of them; and the payloads, joined in order, are the
/// incoming payload exactly.
pub proof fn lemma_tls_fragments_well_formed(s: Seq<u8>, n: nat)
    requires
        s.len() > 5,
        0 < n <= 65535,
    ensures
        forall|k: int|
            0 <= k < tls_fragments(s, n).len() ==> {
                let r = #[trigger] tls_fragments(s, n)[k];
                &&& r.len() > 5
                &&& r.take(3) == s.take(3)
                &&& r[3] as nat * 256 + r[4] as nat == r.len() - 5
                &&& r.len() - 5 <= n
            },
        record_payloads(tls_fragments(s, n)).flatten() == s.skip(5),
{
    let p = s.skip(5);
    let c = chunks_of(p, n);
    let f = tls_fragments(s, n);
    lemma_chunks_bounded(p, n);
    lemma_chunks_reassemble(p, n);
    assert forall|k: int| 0 <= k < f.len() implies {
        let r = #[trigger] f[k];
        &&& r.len() > 5
        &&& r.take(3) == s.take(3)
        &&& r[3] as nat * 256 + r[4] as nat == r.len() - 5
        &&& r.len() - 5 <= n
    } by {
        let r = f[k];
        let l = c[k].len();
        assert(r == tls_record(s.take(3), c[k]));
        assert(r.take(3) =~= s.take(3));
        assert(l < 65536);
        assert(r[3] == ((l % 65536) / 256) as u8);
        assert(r[4] == (l % 256) as u8);
        assert((l / 256) * 256 + l % 256 == l) by (nonlinear_arith)
            requires
                l >= 0,
        ;
    }
    assert(record_payloads(f) =~= c) by {
        assert forall|k: int| 0 <= k < c.len() implies record_payloads(f)[k] == c[k] by {
            assert(f[k] == tls_record(s.take(3), c[k]));
            assert(f[k].skip(5) =~= c[k]);
        }
    }
}

proof fn lemma_div_step(a: nat, n: nat)
    requires
        n > 0,
    ensures
        (a + n) / n == a / n + 1,
{
    vstd::arithmetic::div_mod::lemma_div_plus_one(a as int, n as int);
}

} // verus!
