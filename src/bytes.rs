//! Little-endian integer fields and sequences of them.
use vstd::prelude::*;

verus! {

/// `256` raised to `n`.
pub open spec fn pow256(n: nat) -> nat
    decreases n,
{
    if n == 0 {
        1
    } else {
        256 * pow256((n - 1) as nat)
    }
}

/// The `n` little-endian bytes of `x` (the high part beyond `n` bytes is dropped).
pub open spec fn le_bytes(x: nat, n: nat) -> Seq<u8>
    decreases n,
{
    if n == 0 {
        Seq::empty()
    } else {
        seq![(x % 256) as u8] + le_bytes(x / 256, (n - 1) as nat)
    }
}

/// The number that the little-endian bytes `s` stand for.
pub open spec fn le_value(s: Seq<u8>) -> nat
    decreases s.len(),
{
    if s.len() == 0 {
        0
    } else {
        s[0] as nat + 256 * le_value(s.drop_first())
    }
}

/// Whether a field of this many bytes is one the encoding allows.
pub open spec fn valid_width(w: usize) -> bool {
    1 <= w <= 8
}

/// The bytes of the fields `fs`, the `i`-th written with `ws[i]` bytes.
pub open spec fn fields_bytes(fs: Seq<u64>, ws: Seq<usize>) -> Seq<u8>
    decreases fs.len(),
{
    if fs.len() == 0 || ws.len() == 0 {
        Seq::empty()
    } else {
        le_bytes(fs[0] as nat, ws[0] as nat) + fields_bytes(fs.drop_first(), ws.drop_first())
    }
}

/// Total number of bytes of fields of widths `ws`.
pub open spec fn widths_total(ws: Seq<usize>) -> nat
    decreases ws.len(),
{
    if ws.len() == 0 {
        0
    } else {
        ws[0] as nat + widths_total(ws.drop_first())
    }
}

/// The fields of widths `ws` read from the front of `s`.
pub open spec fn read_fields(s: Seq<u8>, ws: Seq<usize>) -> Seq<u64>
    decreases ws.len(),
{
    if ws.len() == 0 {
        Seq::empty()
    } else {
        seq![le_value(s.take(ws[0] as int)) as u64] + read_fields(
            s.skip(ws[0] as int),
            ws.drop_first(),
        )
    }
}

/// Whether every field fits in its width.
pub open spec fn fields_fit(fs: Seq<u64>, ws: Seq<usize>) -> bool {
    &&& fs.len() == ws.len()
    &&& forall|i: int| 0 <= i < ws.len() ==> #[trigger] valid_width(ws[i])
    &&& forall|i: int| 0 <= i < ws.len() ==> (fs[i] as nat) < #[trigger] pow256(ws[i] as nat)
}

pub proof fn lemma_pow256_values()
    ensures
        pow256(0) == 1,
        pow256(1) == 256,
        pow256(2) == 65536,
        pow256(4) == 0x1_0000_0000,
        pow256(7) == 0x100_0000_0000_0000,
        pow256(8) == 0x1_0000_0000_0000_0000,
{
    reveal_with_fuel(pow256, 9);
}

pub proof fn lemma_pow256_mono(a: nat, b: nat)
    requires
        a <= b,
    ensures
        pow256(a) <= pow256(b),
    decreases b,
{
    if a < b {
        lemma_pow256_mono(a, (b - 1) as nat);
    }
}

pub proof fn lemma_le_bytes_len(x: nat, n: nat)
    ensures
        le_bytes(x, n).len() == n,
    decreases n,
{
    if n > 0 {
        lemma_le_bytes_len(x / 256, (n - 1) as nat);
    }
}

pub proof fn lemma_le_value_bound(s: Seq<u8>)
    ensures
        le_value(s) < pow256(s.len()),
    decreases s.len(),
{
    if s.len() > 0 {
        lemma_le_value_bound(s.drop_first());
        let v = le_value(s.drop_first());
        let p = pow256((s.len() - 1) as nat);
        let b = s[0] as nat;
        assert(b + 256 * v < 256 * p) by (nonlinear_arith)
            requires
                v < p,
                b < 256,
        ;
    }
}

/// Reading back the bytes of a number that fits gives the number.
pub proof fn lemma_le_round_trip(x: nat, n: nat)
    requires
        x < pow256(n),
    ensures
        le_value(le_bytes(x, n)) == x,
    decreases n,
{
    if n > 0 {
        let p = pow256((n - 1) as nat);
        let q = x / 256;
        assert(q < p) by (nonlinear_arith)
            requires
                x < 256 * p,
                q == x / 256,
        ;
        lemma_le_round_trip(q, (n - 1) as nat);
        let s = le_bytes(x, n);
        assert(s.drop_first() =~= le_bytes(q, (n - 1) as nat));
        assert(x == (x % 256) + 256 * q) by (nonlinear_arith)
            requires
                q == x / 256,
        ;
    }
}


/// The fields of a sequence of encoded fields come back when read with the same widths.
pub proof fn lemma_fields_round_trip(fs: Seq<u64>, ws: Seq<usize>, rest: Seq<u8>)
    requires
        fields_fit(fs, ws),
    ensures
        fields_bytes(fs, ws).len() == widths_total(ws),
        read_fields(fields_bytes(fs, ws) + rest, ws) == fs,
    decreases fs.len(),
{
    if fs.len() > 0 {
        let head = le_bytes(fs[0] as nat, ws[0] as nat);
        let tail = fields_bytes(fs.drop_first(), ws.drop_first());
        assert(valid_width(ws[0]));
        assert((fs[0] as nat) < pow256(ws[0] as nat));
        assert(fields_fit(fs.drop_first(), ws.drop_first())) by {
            assert forall|i: int| 0 <= i < ws.len() - 1 implies #[trigger] valid_width(
                ws.drop_first()[i],
            ) by {
                assert(valid_width(ws[i + 1]));
            }
            assert forall|i: int| 0 <= i < ws.len() - 1 implies (fs.drop_first()[i] as nat)
                < #[trigger] pow256(ws.drop_first()[i] as nat) by {
                assert((fs[i + 1] as nat) < pow256(ws[i + 1] as nat));
            }
        }
        lemma_fields_round_trip(fs.drop_first(), ws.drop_first(), rest);
        lemma_le_bytes_len(fs[0] as nat, ws[0] as nat);
        lemma_le_round_trip(fs[0] as nat, ws[0] as nat);
        let all = fields_bytes(fs, ws) + rest;
        assert(all.take(ws[0] as int) =~= head);
        assert(all.skip(ws[0] as int) =~= tail + rest);
        assert(read_fields(all, ws) =~= fs);
    }
}

pub proof fn lemma_widths_total_add(a: Seq<usize>, b: Seq<usize>)
    ensures
        widths_total(a + b) == widths_total(a) + widths_total(b),
    decreases a.len(),
{
    if a.len() > 0 {
        assert((a + b).drop_first() =~= a.drop_first() + b);
        lemma_widths_total_add(a.drop_first(), b);
    } else {
        assert(a + b =~= b);
    }
}

pub proof fn lemma_fields_fit_add(fa: Seq<u64>, wa: Seq<usize>, fb: Seq<u64>, wb: Seq<usize>)
    requires
        fields_fit(fa, wa),
        fields_fit(fb, wb),
    ensures
        fields_fit(fa + fb, wa + wb),
{
    let fs = fa + fb;
    let ws = wa + wb;
    assert forall|i: int| 0 <= i < ws.len() implies #[trigger] valid_width(ws[i]) by {
        if i < wa.len() {
            assert(valid_width(wa[i]));
        } else {
            assert(valid_width(wb[i - wa.len()]));
        }
    }
    assert forall|i: int| 0 <= i < ws.len() implies (fs[i] as nat) < #[trigger] pow256(
        ws[i] as nat,
    ) by {
        if i < wa.len() {
            assert((fa[i] as nat) < pow256(wa[i] as nat));
        } else {
            assert((fb[i - wa.len()] as nat) < pow256(wb[i - wa.len()] as nat));
        }
    }
}

pub proof fn lemma_read_fields_len(s: Seq<u8>, ws: Seq<usize>)
    ensures
        read_fields(s, ws).len() == ws.len(),
    decreases ws.len(),
{
    if ws.len() > 0 {
        lemma_read_fields_len(s.skip(ws[0] as int), ws.drop_first());
    }
}

/// Appends the `n` little-endian bytes of `x`.
pub fn write_le(out: &mut Vec<u8>, x: u64, n: usize)
    requires
        n <= 8,
        (x as nat) < pow256(n as nat),
    ensures
        final(out)@ == old(out)@ + le_bytes(x as nat, n as nat),
{
    let mut v: u64 = x;
    let mut i: usize = 0;
    while i < n
        invariant
            i <= n,
            out@ + le_bytes(v as nat, (n - i) as nat) == old(out)@ + le_bytes(x as nat, n as nat),
        decreases n - i,
    {
        let ghost before = out@;
        let ghost v0 = v;
        let ghost tail = le_bytes(v as nat / 256, (n - i - 1) as nat);
        assert(le_bytes(v as nat, (n - i) as nat) == seq![(v as nat % 256) as u8] + tail);
        out.push((v % 256) as u8);
        v = v / 256;
        i = i + 1;
        assert(before + (seq![(v0 as nat % 256) as u8] + tail) =~= out@ + tail);
    }
    assert(le_bytes(v as nat, 0) =~= Seq::<u8>::empty());
    assert(out@ + Seq::<u8>::empty() =~= out@);
}

/// Reads the `n` little-endian bytes at `pos` as a number.
pub fn read_le(data: &[u8], pos: usize, n: usize) -> (r: u64)
    requires
        n <= 8,
        pos + n <= data@.len(),
    ensures
        r as nat == le_value(data@.subrange(pos as int, pos + n)),
{
    let mut v: u64 = 0;
    let mut i: usize = n;
    let len = data.len();
    proof {
        lemma_pow256_values();
    }
    while i > 0
        invariant
            i <= n,
            n <= 8,
            pos + n <= data@.len(),
            len == data@.len(),
            v as nat == le_value(data@.subrange(pos + i, pos + n)),
            (v as nat) < pow256((n - i) as nat),
        decreases i,
    {
        i = i - 1;
        let b = data[pos + i];
        proof {
            lemma_pow256_values();
            lemma_pow256_mono((n - i - 1) as nat, 7);
            let s = data@.subrange(pos + i, pos + n);
            assert(s.drop_first() =~= data@.subrange(pos + i + 1, pos + n));
            let p = pow256((n - i - 1) as nat);
            let vv = v as nat;
            assert(vv * 256 + (b as nat) < 256 * p) by (nonlinear_arith)
                requires
                    vv < p,
                    (b as nat) < 256,
            ;
            assert(256 * p <= 0x1_0000_0000_0000_0000) by (nonlinear_arith)
                requires
                    p <= 0x100_0000_0000_0000,
            ;
        }
        v = v * 256 + b as u64;
    }
    v
}


/// Appends the fields `fs`, the `i`-th with `ws[i]` bytes.
pub fn write_fields(out: &mut Vec<u8>, fs: &Vec<u64>, ws: &Vec<usize>)
    requires
        fields_fit(fs@, ws@),
    ensures
        final(out)@ == old(out)@ + fields_bytes(fs@, ws@),
{
    let mut i: usize = 0;
    assert(fs@.skip(0) =~= fs@);
    assert(ws@.skip(0) =~= ws@);
    while i < fs.len()
        invariant
            fields_fit(fs@, ws@),
            i <= fs@.len(),
            out@ + fields_bytes(fs@.skip(i as int), ws@.skip(i as int)) == old(out)@
                + fields_bytes(fs@, ws@),
        decreases fs@.len() - i,
    {
        let ghost before = out@;
        let ghost tail = fields_bytes(fs@.skip(i + 1), ws@.skip(i + 1));
        assert(fs@.skip(i as int).drop_first() =~= fs@.skip(i + 1));
        assert(ws@.skip(i as int).drop_first() =~= ws@.skip(i + 1));
        assert(valid_width(ws@[i as int]));
        assert((fs@[i as int] as nat) < pow256(ws@[i as int] as nat));
        write_le(out, fs[i], ws[i]);
        assert(before + (le_bytes(fs@[i as int] as nat, ws@[i as int] as nat) + tail) =~= out@
            + tail);
        i = i + 1;
    }
    assert(fs@.skip(i as int).len() == 0);
    assert(out@ + Seq::<u8>::empty() =~= out@);
}

/// Reads fields of widths `ws` starting at `pos`.
pub fn read_fields_at(data: &[u8], pos: usize, ws: &Vec<usize>) -> (r: Vec<u64>)
    requires
        forall|i: int| 0 <= i < ws@.len() ==> #[trigger] valid_width(ws@[i]),
        pos + widths_total(ws@) <= data@.len(),
    ensures
        r@ == read_fields(data@.skip(pos as int), ws@),
        r@.len() == ws@.len(),
{
    proof {
        lemma_read_fields_len(data@.skip(pos as int), ws@);
    }
    let mut r: Vec<u64> = Vec::new();
    let mut p: usize = pos;
    let mut i: usize = 0;
    let len = data.len();
    assert(ws@.skip(0) =~= ws@);
    while i < ws.len()
        invariant
            forall|j: int| 0 <= j < ws@.len() ==> #[trigger] valid_width(ws@[j]),
            i <= ws@.len(),
            len == data@.len(),
            p + widths_total(ws@.skip(i as int)) == pos + widths_total(ws@),
            pos + widths_total(ws@) <= data@.len(),
            r@ + read_fields(data@.skip(p as int), ws@.skip(i as int)) == read_fields(
                data@.skip(pos as int),
                ws@,
            ),
        decreases ws@.len() - i,
    {
        let w = ws[i];
        assert(valid_width(ws@[i as int]));
        assert(ws@.skip(i as int).drop_first() =~= ws@.skip(i + 1));
        assert(ws@.skip(i as int)[0] == w);
        let ghost s = data@.skip(p as int);
        assert(s.take(w as int) =~= data@.subrange(p as int, p + w));
        assert(s.skip(w as int) =~= data@.skip(p + w));
        let ghost tail = read_fields(data@.skip(p + w), ws@.skip(i + 1));
        let ghost before = r@;
        let v = read_le(data, p, w);
        r.push(v);
        assert(before + (seq![v] + tail) =~= r@ + tail);
        p = p + w;
        i = i + 1;
    }
    assert(read_fields(data@.skip(p as int), ws@.skip(i as int)) =~= Seq::<u64>::empty());
    assert(r@ + Seq::<u64>::empty() =~= r@);
    r
}

} // verus!
