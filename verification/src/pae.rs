use vstd::prelude::*;

verus! {

/// The `count` low bytes of `n`, least significant first.
pub open spec fn le_bytes(n: nat, count: nat) -> Seq<u8>
    decreases count,
{
    if count == 0 {
        seq![]
    } else {
        seq![(n % 256) as u8] + le_bytes(n / 256, (count - 1) as nat)
    }
}

/// `n` as eight little-endian bytes.
pub open spec fn le64(n: nat) -> Seq<u8> {
    le_bytes(n, 8)
}

/// Each piece preceded by its length.
pub open spec fn pae_body(pieces: Seq<Seq<u8>>) -> Seq<u8>
    decreases pieces.len(),
{
    if pieces.len() == 0 {
        seq![]
    } else {
        pae_body(pieces.drop_last()) + le64(pieces.last().len()) + pieces.last()
    }
}

/// Pre-authentication encoding: the number of pieces, then each piece preceded by its
/// length, all lengths as eight little-endian bytes.
pub open spec fn pae(pieces: Seq<Seq<u8>>) -> Seq<u8> {
    le64(pieces.len()) + pae_body(pieces)
}

/// The contents of a list of byte strings.
pub open spec fn bytes_view(v: Seq<Vec<u8>>) -> Seq<Seq<u8>> {
    v.map_values(|b: Vec<u8>| b@)
}

/// `n` as eight little-endian bytes.
pub fn le64_bytes(n: u64) -> (r: Vec<u8>)
    ensures
        r@ == le64(n as nat),
{
    let mut r: Vec<u8> = Vec::new();
    let mut x: u64 = n;
    let mut i: usize = 0;
    while i < 8
        invariant
            i <= 8,
            r@ + le_bytes(x as nat, (8 - i) as nat) == le_bytes(n as nat, 8),
        decreases 8 - i,
    {
        let ghost before = r@;
        assert(le_bytes(x as nat, (8 - i) as nat) == seq![(x % 256) as u8] + le_bytes(
            (x / 256) as nat,
            (8 - i - 1) as nat,
        ));
        r.push((x % 256) as u8);
        assert(before + (seq![(x % 256) as u8] + le_bytes((x / 256) as nat, (8 - i - 1) as nat))
            =~= r@ + le_bytes((x / 256) as nat, (8 - i - 1) as nat));
        x = x / 256;
        i = i + 1;
    }
    assert(r@ + Seq::<u8>::empty() =~= r@);
    r
}

/// Appends bytes to a buffer.
fn append_bytes(out: &mut Vec<u8>, bytes: &[u8])
    ensures
        final(out)@ == old(out)@ + bytes@,
{
    let mut i: usize = 0;
    while i < bytes.len()
        invariant
            i <= bytes@.len(),
            out@ == old(out)@ + bytes@.take(i as int),
        decreases bytes@.len() - i,
    {
        out.push(bytes[i]);
        assert(old(out)@ + bytes@.take(i + 1) =~= (old(out)@ + bytes@.take(i as int)).push(
            bytes@[i as int],
        ));
        i = i + 1;
    }
    assert(bytes@.take(bytes@.len() as int) =~= bytes@);
}

/// The pre-authentication encoding of `pieces`.
pub fn pre_auth_encode(pieces: &Vec<Vec<u8>>) -> (r: Vec<u8>)
    ensures
        r@ == pae(bytes_view(pieces@)),
{
    let ghost all = bytes_view(pieces@);
    let mut out = le64_bytes(pieces.len() as u64);
    let mut i: usize = 0;
    while i < pieces.len()
        invariant
            i <= pieces@.len(),
            all == bytes_view(pieces@),
            out@ == le64(pieces@.len() as nat) + pae_body(all.take(i as int)),
        decreases pieces@.len() - i,
    {
        let len_bytes = le64_bytes(pieces[i].len() as u64);
        append_bytes(&mut out, len_bytes.as_slice());
        append_bytes(&mut out, pieces[i].as_slice());
        assert(all.take(i + 1).drop_last() =~= all.take(i as int));
        assert(all.take(i + 1).last() == pieces@[i as int]@);
        i = i + 1;
    }
    assert(all.take(pieces@.len() as int) =~= all);
    out
}

/// Eight little-endian bytes are eight bytes long.
pub proof fn lemma_le_bytes_len(n: nat, count: nat)
    ensures
        le_bytes(n, count).len() == count,
    decreases count,
{
    if count > 0 {
        lemma_le_bytes_len(n / 256, (count - 1) as nat);
    }
}

/// The total length of pieces, each counted with its eight length bytes.
pub open spec fn framed_len(pieces: Seq<Seq<u8>>) -> int
    decreases pieces.len(),
{
    if pieces.len() == 0 {
        0
    } else {
        framed_len(pieces.drop_last()) + 8 + pieces.last().len()
    }
}

/// The pre-authentication encoding is eight bytes of count, then eight bytes of length
/// and the bytes of each piece.
pub proof fn lemma_pae_len(pieces: Seq<Seq<u8>>)
    ensures
        pae(pieces).len() == 8 + framed_len(pieces),
{
    lemma_le_bytes_len(pieces.len(), 8);
    lemma_pae_body_len(pieces);
}

proof fn lemma_pae_body_len(pieces: Seq<Seq<u8>>)
    ensures
        pae_body(pieces).len() == framed_len(pieces),
    decreases pieces.len(),
{
    if pieces.len() > 0 {
        lemma_pae_body_len(pieces.drop_last());
        lemma_le_bytes_len(pieces.last().len(), 8);
    }
}

/// 256 to the power `k`.
pub open spec fn pow256(k: nat) -> nat
    decreases k,
{
    if k == 0 {
        1
    } else {
        256 * pow256((k - 1) as nat)
    }
}

/// Two numbers below `256^k` with the same `k` low bytes are equal.
proof fn lemma_le_bytes_injective(n: nat, m: nat, k: nat)
    requires
        n < pow256(k),
        m < pow256(k),
        le_bytes(n, k) == le_bytes(m, k),
    ensures
        n == m,
    decreases k,
{
    if k > 0 {
        let p = pow256((k - 1) as nat);
        assert(le_bytes(n, k)[0] == (n % 256) as u8);
        assert(le_bytes(m, k)[0] == (m % 256) as u8);
        assert(le_bytes(n, k).drop_first() =~= le_bytes(n / 256, (k - 1) as nat));
        assert(le_bytes(m, k).drop_first() =~= le_bytes(m / 256, (k - 1) as nat));
        assert(n / 256 < p) by (nonlinear_arith)
            requires
                n < 256 * p,
        ;
        assert(m / 256 < p) by (nonlinear_arith)
            requires
                m < 256 * p,
        ;
        lemma_le_bytes_injective(n / 256, m / 256, (k - 1) as nat);
        assert(n % 256 == m % 256);
        assert(n == 256 * (n / 256) + n % 256) by (nonlinear_arith);
        assert(m == 256 * (m / 256) + m % 256) by (nonlinear_arith);
    }
}

/// With at least one piece, the body begins with the first piece and its length.
proof fn lemma_pae_body_front(pieces: Seq<Seq<u8>>)
    requires
        pieces.len() >= 1,
    ensures
        pae_body(pieces) == le64(pieces[0].len()) + pieces[0] + pae_body(pieces.drop_first()),
    decreases pieces.len(),
{
    if pieces.len() == 1 {
        assert(pieces.drop_last().len() == 0);
        assert(pieces.drop_first().len() == 0);
        assert(pae_body(pieces) == pae_body(pieces.drop_last()) + le64(pieces.last().len())
            + pieces.last());
        assert(Seq::<u8>::empty() + le64(pieces[0].len()) + pieces[0] =~= le64(pieces[0].len())
            + pieces[0] + Seq::<u8>::empty());
    } else {
        lemma_pae_body_front(pieces.drop_last());
        assert(pieces.drop_last().drop_first() =~= pieces.drop_first().drop_last());
        assert(pieces.drop_first().last() == pieces.last());
        assert(pieces.drop_last()[0] == pieces[0]);
        let h = le64(pieces[0].len()) + pieces[0];
        let mid = pae_body(pieces.drop_first().drop_last());
        let t = le64(pieces.last().len()) + pieces.last();
        assert(pae_body(pieces) == pae_body(pieces.drop_last()) + le64(pieces.last().len())
            + pieces.last());
        assert(pae_body(pieces.drop_first()) == mid + le64(pieces.drop_first().last().len())
            + pieces.drop_first().last());
        assert(h + mid + le64(pieces.last().len()) + pieces.last() =~= h + (mid + le64(
            pieces.last().len(),
        ) + pieces.last()));
    }
}

/// Every piece, and the number of pieces, is shorter than `2^64`.
pub open spec fn pae_lengths_fit(pieces: Seq<Seq<u8>>) -> bool {
    &&& pieces.len() < pow256(8)
    &&& forall|i: int| 0 <= i < pieces.len() ==> #[trigger] pieces[i].len() < pow256(8)
}

proof fn lemma_pae_body_injective(a: Seq<Seq<u8>>, b: Seq<Seq<u8>>)
    requires
        a.len() == b.len(),
        pae_lengths_fit(a),
        pae_lengths_fit(b),
        pae_body(a) == pae_body(b),
    ensures
        a == b,
    decreases a.len(),
{
    if a.len() == 0 {
        assert(a =~= b);
    } else {
        lemma_pae_body_front(a);
        lemma_pae_body_front(b);
        let la = a[0].len();
        let lb = b[0].len();
        lemma_le_bytes_len(la, 8);
        lemma_le_bytes_len(lb, 8);
        let body = pae_body(a);
        let ta = pae_body(a.drop_first());
        let tb = pae_body(b.drop_first());
        assert(body.take(8) =~= le64(la)) by {
            assert((le64(la) + a[0] + ta).take(8) =~= le64(la));
        }
        assert(body.take(8) =~= le64(lb)) by {
            assert((le64(lb) + b[0] + tb).take(8) =~= le64(lb));
        }
        assert(la < pow256(8));
        assert(lb < pow256(8));
        lemma_le_bytes_injective(la, lb, 8);
        assert(body.subrange(8, 8 + la as int) =~= a[0]) by {
            assert((le64(la) + a[0] + ta).subrange(8, 8 + la as int) =~= a[0]);
        }
        assert(body.subrange(8, 8 + lb as int) =~= b[0]) by {
            assert((le64(lb) + b[0] + tb).subrange(8, 8 + lb as int) =~= b[0]);
        }
        assert(body.skip(8 + la as int) =~= ta) by {
            assert((le64(la) + a[0] + ta).skip(8 + la as int) =~= ta);
        }
        assert(body.skip(8 + lb as int) =~= tb) by {
            assert((le64(lb) + b[0] + tb).skip(8 + lb as int) =~= tb);
        }
        assert(pae_lengths_fit(a.drop_first())) by {
            assert forall|i: int| 0 <= i < a.drop_first().len() implies #[trigger] a.drop_first()[i].len()
                < pow256(8) by {
                assert(a.drop_first()[i] == a[i + 1]);
            }
        }
        assert(pae_lengths_fit(b.drop_first())) by {
            assert forall|i: int| 0 <= i < b.drop_first().len() implies #[trigger] b.drop_first()[i].len()
                < pow256(8) by {
                assert(b.drop_first()[i] == b[i + 1]);
            }
        }
        lemma_pae_body_injective(a.drop_first(), b.drop_first());
        assert(a =~= seq![a[0]] + a.drop_first());
        assert(b =~= seq![b[0]] + b.drop_first());
    }
}

/// The pre-authentication encoding is unambiguous: equal encodings come from equal
/// lists of pieces (when every length fits in 64 bits).
pub proof fn lemma_pae_injective(a: Seq<Seq<u8>>, b: Seq<Seq<u8>>)
    requires
        pae_lengths_fit(a),
        pae_lengths_fit(b),
        pae(a) == pae(b),
    ensures
        a == b,
{
    lemma_le_bytes_len(a.len(), 8);
    lemma_le_bytes_len(b.len(), 8);
    let e = pae(a);
    assert(e.take(8) =~= le64(a.len())) by {
        assert((le64(a.len()) + pae_body(a)).take(8) =~= le64(a.len()));
    }
    assert(e.take(8) =~= le64(b.len())) by {
        assert((le64(b.len()) + pae_body(b)).take(8) =~= le64(b.len()));
    }
    lemma_le_bytes_injective(a.len(), b.len(), 8);
    assert(e.skip(8) =~= pae_body(a)) by {
        assert((le64(a.len()) + pae_body(a)).skip(8) =~= pae_body(a));
    }
    assert(e.skip(8) =~= pae_body(b)) by {
        assert((le64(b.len()) + pae_body(b)).skip(8) =~= pae_body(b));
    }
    lemma_pae_body_injective(a, b);
}

} // verus!
