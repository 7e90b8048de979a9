use vstd::prelude::*;
use vstd::arithmetic::div_mod::{
    lemma_div_multiples_vanish, lemma_div_pos_is_pos, lemma_fundamental_div_mod, lemma_mod_bound,
    lemma_mod_multiples_basic, lemma_multiply_divide_lt, lemma_small_mod,
};
use vstd::arithmetic::mul::{lemma_mul_inequality, lemma_mul_is_commutative};

verus! {

/// Shard configuration of the erasure-coding layer: ten data shards carry
/// the payload, four parity shards allow reconstruction of lost shards.
pub const DATA_SHARDS: usize = 10;
pub const PARITY_SHARDS: usize = 4;
pub const TOTAL_SHARDS: usize = 14;

/// Why erasure-coded recovery failed.
#[derive(Debug, Clone, Copy, PartialEq, Eq, Structural)]
pub enum EccError {
    /// The input length is not a multiple of the shard total.
    LengthMismatch,
    /// The parity shards do not match the data shards.
    IntegrityCheckFailed,
}

/// What the systematic Reed-Solomon encoder over GF(256) computes: the
/// parity shards are a pure function of the data shard contents and the
/// parity shard count alone.
pub uninterp spec fn rs_parity(data: Seq<Seq<u8>>, parity_shards: int) -> Seq<Seq<u8>>;

/// The byte sequences held by a vector of shards.
pub open spec fn shards_view(shards: Seq<Vec<u8>>) -> Seq<Seq<u8>> {
    shards.map_values(|shard: Vec<u8>| shard@)
}

/// The `s`-th shard of size `size` of a flat buffer.
pub open spec fn shard_of(buf: Seq<u8>, size: int, s: int) -> Seq<u8> {
    buf.subrange(s * size, (s + 1) * size)
}

/// The first `n` shards of size `size` of a flat buffer.
pub open spec fn shards_of(buf: Seq<u8>, size: int, n: int) -> Seq<Seq<u8>> {
    Seq::new(n as nat, |s: int| shard_of(buf, size, s))
}

/// Length of a buffer of length `n` once zero-padded to the next multiple of
/// the data-shard count.
pub open spec fn pad_len(n: int) -> int {
    if n % (DATA_SHARDS as int) == 0 {
        n
    } else {
        n + (DATA_SHARDS as int) - n % (DATA_SHARDS as int)
    }
}

/// Shard size used when protecting a buffer of length `n`.
pub open spec fn shard_size_spec(n: int) -> int {
    pad_len(n) / (DATA_SHARDS as int)
}

/// A buffer zero-padded to the next multiple of the data-shard count.
pub open spec fn padded_spec(data: Seq<u8>) -> Seq<u8> {
    data + Seq::new((pad_len(data.len() as int) - data.len()) as nat, |i: int| 0u8)
}

/// The parity portion of a protected buffer matches the Reed-Solomon parity
/// of its data portion, shard by shard.
pub open spec fn ecc_intact(buf: Seq<u8>, size: int) -> bool {
    shards_of(buf, size, TOTAL_SHARDS as int).subrange(DATA_SHARDS as int, TOTAL_SHARDS as int)
        == rs_parity(
        shards_of(buf, size, TOTAL_SHARDS as int).subrange(0, DATA_SHARDS as int),
        PARITY_SHARDS as int,
    )
}

/// Basic facts about the padded length.
proof fn lemma_pad_properties(n: int)
    requires
        0 <= n,
    ensures
        n <= pad_len(n) < n + DATA_SHARDS,
        pad_len(n) % (DATA_SHARDS as int) == 0,
        (DATA_SHARDS as int) * shard_size_spec(n) == pad_len(n),
        n >= 1 ==> shard_size_spec(n) >= 1,
{
    let d = DATA_SHARDS as int;
    let q = n / d;
    let r = n % d;
    lemma_mod_bound(n, d);
    lemma_fundamental_div_mod(n, d);
    lemma_div_pos_is_pos(n, d);
    if r == 0 {
        lemma_div_multiples_vanish(q, d);
    } else {
        assert(d * q + d == d * (q + 1)) by (nonlinear_arith);
        assert(pad_len(n) == d * (q + 1));
        lemma_mod_multiples_basic(q + 1, d);
        assert((q + 1) * d == d * (q + 1)) by (nonlinear_arith);
        lemma_div_multiples_vanish(q + 1, d);
    }
}

/// Two buffers cut into the same shards are the same buffer.
proof fn lemma_shards_determine_buffer(a: Seq<u8>, b: Seq<u8>, size: int, n: int)
    requires
        size >= 1,
        n >= 0,
        a.len() == n * size,
        b.len() == n * size,
        shards_of(a, size, n) == shards_of(b, size, n),
    ensures
        a == b,
{
    assert forall|i: int| 0 <= i < n * size implies a[i] == b[i] by {
        let t = i / size;
        let u = i % size;
        lemma_fundamental_div_mod(i, size);
        lemma_mod_bound(i, size);
        lemma_div_pos_is_pos(i, size);
        lemma_mul_is_commutative(size, n);
        lemma_multiply_divide_lt(i, size, n);
        lemma_mul_is_commutative(size, t);
        assert(i == t * size + u);
        lemma_mul_inequality(t + 1, n, size);
        assert((t + 1) * size == t * size + size) by (nonlinear_arith);
        assert(0 <= t * size) by (nonlinear_arith)
            requires
                0 <= t,
                0 <= size,
        ;
        assert(shards_of(a, size, n)[t] == shards_of(b, size, n)[t]);
        assert(a.subrange(t * size, (t + 1) * size) == b.subrange(t * size, (t + 1) * size));
        assert(a[i] == a.subrange(t * size, (t + 1) * size)[u]);
        assert(b[i] == b.subrange(t * size, (t + 1) * size)[u]);
    }
    assert(a =~= b);
}

/// Relies on reed_solomon_erasure's `ReedSolomon::new` and
/// `ReedSolomon::encode` over GF(256): for a valid configuration (at least
/// one data and one parity shard, at most 256 in total, so `new` succeeds)
/// and a well-formed shard set (`data + parity` many shards of one common
/// nonzero length, so `encode` succeeds), `encode` overwrites exactly the
/// parity shards, in place, with the parity of the data shards — a pure
/// function of the data shard contents and the parity shard count.
#[verifier::external_body]
fn rs_encode_shards(data_shards: usize, parity_shards: usize, shards: &mut Vec<Vec<u8>>)
    requires
        1 <= data_shards,
        1 <= parity_shards,
        data_shards + parity_shards <= 256,
        old(shards)@.len() == data_shards + parity_shards,
        forall|i: int|
            0 <= i < old(shards)@.len() ==> (#[trigger] old(shards)@[i])@.len() == old(
                shards,
            )@[0]@.len(),
        old(shards)@[0]@.len() >= 1,
    ensures
        final(shards)@.len() == old(shards)@.len(),
        forall|i: int|
            0 <= i < data_shards ==> (#[trigger] final(shards)@[i])@ == old(shards)@[i]@,
        forall|i: int|
            data_shards <= i < final(shards)@.len() ==> (#[trigger] final(shards)@[i])@.len()
                == old(shards)@[i]@.len(),
        shards_view(final(shards)@).subrange(data_shards as int, final(shards)@.len() as int)
            == rs_parity(
            shards_view(final(shards)@).subrange(0, data_shards as int),
            parity_shards as int,
        ),
{
    let rs = reed_solomon_erasure::galois_8::ReedSolomon::new(data_shards, parity_shards).unwrap();
    rs.encode(shards.as_mut_slice()).unwrap();
}

/// Relies on reed_solomon_erasure's `ReedSolomon::new` and
/// `ReedSolomon::verify` over GF(256): for a valid configuration and a
/// well-formed shard set, `verify` recomputes the parity of the data shards
/// into a scratch buffer and reports whether it equals the parity shards
/// present.
#[verifier::external_body]
fn rs_verify_shards(data_shards: usize, parity_shards: usize, shards: &Vec<Vec<u8>>) -> (ok: bool)
    requires
        1 <= data_shards,
        1 <= parity_shards,
        data_shards + parity_shards <= 256,
        shards@.len() == data_shards + parity_shards,
        forall|i: int|
            0 <= i < shards@.len() ==> (#[trigger] shards@[i])@.len() == shards@[0]@.len(),
        shards@[0]@.len() >= 1,
    ensures
        ok == (shards_view(shards@).subrange(data_shards as int, shards@.len() as int)
            == rs_parity(shards_view(shards@).subrange(0, data_shards as int), parity_shards as int)),
{
    let rs = reed_solomon_erasure::galois_8::ReedSolomon::new(data_shards, parity_shards).unwrap();
    rs.verify(shards.as_slice()).unwrap()
}

/// Cuts `count * size` bytes into `count` shards of `size` bytes each.
#[verifier::loop_isolation(false)]
fn split_into_shards(buf: &[u8], size: usize, count: usize) -> (shards: Vec<Vec<u8>>)
    requires
        size >= 1,
        count * size == buf@.len(),
        count * size <= usize::MAX,
    ensures
        shards@.len() == count,
        forall|t: int|
            0 <= t < count ==> (#[trigger] shards@[t])@ == shard_of(buf@, size as int, t),
        forall|t: int| 0 <= t < count ==> (#[trigger] shards@[t])@.len() == size,
{
    let mut shards: Vec<Vec<u8>> = Vec::with_capacity(count);
    let mut offset: usize = 0;
    proof {
        assert(0 * size == 0) by (nonlinear_arith);
    }
    for s in 0..count
        invariant
            offset == s * size,
            shards@.len() == s,
            forall|t: int|
                0 <= t < s ==> (#[trigger] shards@[t])@ == shard_of(buf@, size as int, t),
            forall|t: int| 0 <= t < s ==> (#[trigger] shards@[t])@.len() == size,
    {
        proof {
            lemma_mul_inequality(s as int + 1, count as int, size as int);
            assert((s + 1) * size == s * size + size) by (nonlinear_arith);
        }
        let mut shard: Vec<u8> = Vec::with_capacity(size);
        for j in 0..size
            invariant
                shard@.len() == j,
                forall|u: int| 0 <= u < j ==> shard@[u] == buf@[offset + u],
        {
            shard.push(buf[offset + j]);
        }
        proof {
            assert(shard@ =~= shard_of(buf@, size as int, s as int));
        }
        shards.push(shard);
        offset = offset + size;
    }
    shards
}

/// Concatenates shards of a common size back into one flat buffer.
#[verifier::loop_isolation(false)]
fn flatten_shards(shards: &Vec<Vec<u8>>, size: usize) -> (out: Vec<u8>)
    requires
        shards@.len() * size <= usize::MAX,
        forall|t: int| 0 <= t < shards@.len() ==> (#[trigger] shards@[t])@.len() == size,
    ensures
        out@.len() == shards@.len() * size,
        forall|t: int|
            0 <= t < shards@.len() ==> out@.subrange(t * size, (t + 1) * size) == (
            #[trigger] shards@[t])@,
{
    let count: usize = shards.len();
    let mut out: Vec<u8> = Vec::new();
    proof {
        assert(0 * size == 0) by (nonlinear_arith);
    }
    for s in 0..count
        invariant
            out@.len() == s * size,
            forall|t: int|
                0 <= t < s ==> out@.subrange(t * size, (t + 1) * size) == (#[trigger] shards@[t])@,
    {
        proof {
            lemma_mul_inequality(s as int + 1, count as int, size as int);
            assert((s + 1) * size == s * size + size) by (nonlinear_arith);
        }
        let ghost out0 = out@;
        for j in 0..size
            invariant
                out@ == out0 + shards@[s as int]@.subrange(0, j as int),
        {
            out.push(shards[s][j]);
            proof {
                assert(out@ =~= out0 + shards@[s as int]@.subrange(0, j + 1));
            }
        }
        proof {
            assert(shards@[s as int]@.subrange(0, size as int) =~= shards@[s as int]@);
            assert forall|t: int| 0 <= t < s + 1 implies out@.subrange(t * size, (t + 1) * size)
                == (#[trigger] shards@[t])@ by {
                assert((t + 1) * size <= (s + 1) * size && 0 <= t * size && (t + 1) * size == t
                    * size + size && (t < s ==> (t + 1) * size <= s * size))
                    by (nonlinear_arith)
                    requires
                        0 <= t <= s,
                        0 <= size,
                ;
                assert(out@.subrange(t * size, (t + 1) * size) =~= shards@[t]@);
            }
        }
    }
    out
}

/// Wraps a byte stream with Reed-Solomon parity: the input is zero-padded to
/// a multiple of the data-shard count, cut into ten data shards, four parity
/// shards are computed over GF(256), and all fourteen shards are returned
/// concatenated (data first, parity after). The output length is always a
/// multiple of fourteen.
#[verifier::loop_isolation(false)]
pub fn add_error_correction(data: &[u8]) -> (out: Vec<u8>)
    requires
        1 <= data@.len(),
        data@.len() <= usize::MAX / 16,
    ensures
        out@.len() == (TOTAL_SHARDS as int) * shard_size_spec(data@.len() as int),
        out@.subrange(0, (DATA_SHARDS as int) * shard_size_spec(data@.len() as int))
            == padded_spec(data@),
        ecc_intact(out@, shard_size_spec(data@.len() as int)),
{
    let ghost n = data@.len() as int;
    proof {
        lemma_pad_properties(n);
    }

    let mut padded: Vec<u8> = Vec::with_capacity(data.len() + DATA_SHARDS);
    for i in 0..data.len()
        invariant
            padded@.len() == i,
            forall|j: int| 0 <= j < i ==> padded@[j] == data@[j],
    {
        padded.push(data[i]);
    }
    let rem: usize = data.len() % DATA_SHARDS;
    let pad: usize = if rem == 0 {
        0
    } else {
        DATA_SHARDS - rem
    };
    for k in 0..pad
        invariant
            padded@.len() == data@.len() + k,
            forall|j: int| 0 <= j < data@.len() ==> padded@[j] == data@[j],
            forall|j: int| data@.len() <= j < padded@.len() ==> padded@[j] == 0u8,
    {
        padded.push(0u8);
    }
    proof {
        assert(padded@.len() == pad_len(n));
        assert(padded@ =~= padded_spec(data@));
    }

    let shard_size: usize = padded.len() / DATA_SHARDS;
    proof {
        lemma_div_multiples_vanish(shard_size_spec(n), DATA_SHARDS as int);
        assert(shard_size == shard_size_spec(n));
        assert(DATA_SHARDS * shard_size == padded@.len());
    }

    proof {
        assert(DATA_SHARDS * shard_size <= usize::MAX);
    }
    let mut shards: Vec<Vec<u8>> = split_into_shards(padded.as_slice(), shard_size, DATA_SHARDS);
    for p in 0..PARITY_SHARDS
        invariant
            shards@.len() == DATA_SHARDS + p,
            forall|t: int|
                0 <= t < DATA_SHARDS ==> (#[trigger] shards@[t])@ == shard_of(
                    padded@,
                    shard_size as int,
                    t,
                ),
            forall|t: int| 0 <= t < shards@.len() ==> (#[trigger] shards@[t])@.len() == shard_size,
    {
        let mut zeros: Vec<u8> = Vec::with_capacity(shard_size);
        for j in 0..shard_size
            invariant
                zeros@.len() == j,
        {
            zeros.push(0u8);
        }
        shards.push(zeros);
    }

    rs_encode_shards(DATA_SHARDS, PARITY_SHARDS, &mut shards);

    let out: Vec<u8> = flatten_shards(&shards, shard_size);

    proof {
        let size = shard_size as int;
        // the data portion is exactly the padded buffer
        assert forall|t: int| 0 <= t < DATA_SHARDS as int implies shards_of(
            out@.subrange(0, (DATA_SHARDS as int) * size),
            size,
            DATA_SHARDS as int,
        )[t] == shards_of(padded@, size, DATA_SHARDS as int)[t] by {
            assert((t + 1) * size <= 10 * size && 0 <= t * size && (t + 1) * size == t * size
                + size) by (nonlinear_arith)
                requires
                    0 <= t < 10,
                    0 <= size,
            ;
            assert(out@.subrange(0, (DATA_SHARDS as int) * size).subrange(t * size, (t + 1) * size)
                =~= out@.subrange(t * size, (t + 1) * size));
            assert(out@.subrange(t * size, (t + 1) * size) == shards@[t]@);
        }
        assert(shards_of(out@.subrange(0, (DATA_SHARDS as int) * size), size, DATA_SHARDS as int)
            =~= shards_of(padded@, size, DATA_SHARDS as int));
        lemma_shards_determine_buffer(
            out@.subrange(0, (DATA_SHARDS as int) * size),
            padded@,
            size,
            DATA_SHARDS as int,
        );
        // the shard decomposition of the output is the shard vector itself
        assert forall|t: int| 0 <= t < TOTAL_SHARDS as int implies shards_of(
            out@,
            size,
            TOTAL_SHARDS as int,
        )[t] == shards_view(shards@)[t] by {
            assert(out@.subrange(t * size, (t + 1) * size) == shards@[t]@);
        }
        assert(shards_of(out@, size, TOTAL_SHARDS as int) =~= shards_view(shards@));
        assert(shards_of(out@, size, TOTAL_SHARDS as int).subrange(
            DATA_SHARDS as int,
            TOTAL_SHARDS as int,
        ) == shards_view(shards@).subrange(DATA_SHARDS as int, TOTAL_SHARDS as int));
        assert(shards_of(out@, size, TOTAL_SHARDS as int).subrange(0, DATA_SHARDS as int)
            == shards_view(shards@).subrange(0, DATA_SHARDS as int));
    }
    out
}

/// Validates and strips the Reed-Solomon parity from a protected byte
/// stream: the length must be an exact multiple of the shard total, and the
/// parity shards must match the data shards; on success the concatenated
/// data shards are returned (the zero padding added when encoding is still
/// present). The two failure kinds are reported as distinct errors.
#[verifier::loop_isolation(false)]
pub fn recover_error_correction(data_with_parity: &[u8]) -> (r: Result<Vec<u8>, EccError>)
    requires
        1 <= data_with_parity@.len(),
    ensures
        match r {
            Ok(recovered) => {
                &&& data_with_parity@.len() as int % (TOTAL_SHARDS as int) == 0
                &&& ecc_intact(
                    data_with_parity@,
                    data_with_parity@.len() as int / (TOTAL_SHARDS as int),
                )
                &&& recovered@ == data_with_parity@.subrange(
                    0,
                    (DATA_SHARDS as int) * (data_with_parity@.len() as int / (TOTAL_SHARDS as int)),
                )
            },
            Err(EccError::LengthMismatch) => data_with_parity@.len() as int % (
            TOTAL_SHARDS as int) != 0,
            Err(EccError::IntegrityCheckFailed) => {
                &&& data_with_parity@.len() as int % (TOTAL_SHARDS as int) == 0
                &&& !ecc_intact(
                    data_with_parity@,
                    data_with_parity@.len() as int / (TOTAL_SHARDS as int),
                )
            },
        },
{
    let n: usize = data_with_parity.len();
    if n % TOTAL_SHARDS != 0 {
        return Err(EccError::LengthMismatch);
    }
    proof {
        if n < TOTAL_SHARDS {
            lemma_small_mod(n as nat, TOTAL_SHARDS as nat);
        }
        lemma_fundamental_div_mod(n as int, TOTAL_SHARDS as int);
        lemma_div_pos_is_pos(n as int, TOTAL_SHARDS as int);
    }
    let shard_size: usize = n / TOTAL_SHARDS;

    let shards: Vec<Vec<u8>> = split_into_shards(data_with_parity, shard_size, TOTAL_SHARDS);
    proof {
        assert(shards_view(shards@) =~= shards_of(
            data_with_parity@,
            shard_size as int,
            TOTAL_SHARDS as int,
        ));
    }
    let ok: bool = rs_verify_shards(DATA_SHARDS, PARITY_SHARDS, &shards);

    let prefix: usize = DATA_SHARDS * shard_size;
    let mut recovered: Vec<u8> = Vec::with_capacity(prefix);
    for i in 0..prefix
        invariant
            recovered@.len() == i,
            forall|j: int| 0 <= j < i ==> recovered@[j] == data_with_parity@[j],
    {
        recovered.push(data_with_parity[i]);
    }
    proof {
        assert(recovered@ =~= data_with_parity@.subrange(
            0,
            (DATA_SHARDS as int) * (shard_size as int),
        ));
    }
    if ok {
        Ok(recovered)
    } else {
        Err(EccError::IntegrityCheckFailed)
    }
}

/// Strips the parity portion without running the integrity check: the
/// fallback read of a protected stream whose parity may no longer match.
/// Only the length is validated.
#[verifier::loop_isolation(false)]
pub fn strip_error_correction(data_with_parity: &[u8]) -> (r: Result<Vec<u8>, EccError>)
    ensures
        match r {
            Ok(stripped) => {
                &&& data_with_parity@.len() as int % (TOTAL_SHARDS as int) == 0
                &&& stripped@ == data_with_parity@.subrange(
                    0,
                    (DATA_SHARDS as int) * (data_with_parity@.len() as int / (TOTAL_SHARDS as int)),
                )
            },
            Err(e) => e == EccError::LengthMismatch && data_with_parity@.len() as int % (
            TOTAL_SHARDS as int) != 0,
        },
{
    let n: usize = data_with_parity.len();
    if n % TOTAL_SHARDS != 0 {
        return Err(EccError::LengthMismatch);
    }
    proof {
        lemma_fundamental_div_mod(n as int, TOTAL_SHARDS as int);
        lemma_div_pos_is_pos(n as int, TOTAL_SHARDS as int);
    }
    let shard_size: usize = n / TOTAL_SHARDS;
    let prefix: usize = DATA_SHARDS * shard_size;
    let mut stripped: Vec<u8> = Vec::with_capacity(prefix);
    for i in 0..prefix
        invariant
            stripped@.len() == i,
            forall|j: int| 0 <= j < i ==> stripped@[j] == data_with_parity@[j],
    {
        stripped.push(data_with_parity[i]);
    }
    proof {
        assert(stripped@ =~= data_with_parity@.subrange(
            0,
            (DATA_SHARDS as int) * (shard_size as int),
        ));
    }
    Ok(stripped)
}

/// ECC round trip: every buffer with the encoder's layout — the padded data
/// followed by its Reed-Solomon parity — passes the decoder's length and
/// integrity checks, and the decoder returns exactly the original data
/// zero-padded to a multiple of the data-shard count.
pub proof fn lemma_ecc_round_trip(data: Seq<u8>, protected: Seq<u8>)
    requires
        1 <= data.len(),
        protected.len() == (TOTAL_SHARDS as int) * shard_size_spec(data.len() as int),
        protected.subrange(0, (DATA_SHARDS as int) * shard_size_spec(data.len() as int))
            == padded_spec(data),
        ecc_intact(protected, shard_size_spec(data.len() as int)),
    ensures
        protected.len() as int % (TOTAL_SHARDS as int) == 0,
        protected.len() as int / (TOTAL_SHARDS as int) == shard_size_spec(data.len() as int),
        ecc_intact(protected, protected.len() as int / (TOTAL_SHARDS as int)),
        protected.subrange(
            0,
            (DATA_SHARDS as int) * (protected.len() as int / (TOTAL_SHARDS as int)),
        ) == padded_spec(data),
        padded_spec(data).subrange(0, data.len() as int) == data,
        padded_spec(data).len() as int % (DATA_SHARDS as int) == 0,
        forall|i: int| data.len() <= i < padded_spec(data).len() ==> padded_spec(data)[i] == 0u8,
{
    let size = shard_size_spec(data.len() as int);
    lemma_pad_properties(data.len() as int);
    lemma_mul_is_commutative(TOTAL_SHARDS as int, size);
    lemma_mod_multiples_basic(size, TOTAL_SHARDS as int);
    lemma_div_multiples_vanish(size, TOTAL_SHARDS as int);
    assert(padded_spec(data).subrange(0, data.len() as int) =~= data);
}

} // verus!
