use vstd::prelude::*;

verus! {

// ---------------------------------------------------------------------------
// GF(256) with the primitive polynomial x^8 + x^4 + x^3 + x^2 + 1 (0x11D)
// ---------------------------------------------------------------------------

/// Multiplication by the generator element 2, reduced by 0x11D.
pub open spec fn xtime(a: u8) -> u8 {
    if a & 0x80 != 0 {
        (a << 1u8) ^ 0x1D
    } else {
        a << 1u8
    }
}

/// Shift-and-add product over the `k` low bits of `b`.
pub open spec fn gf_mul_steps(a: u8, b: u8, k: nat) -> u8
    decreases k,
{
    if k == 0 {
        0
    } else {
        (if b & 1 == 1 {
            a
        } else {
            0u8
        }) ^ gf_mul_steps(xtime(a), b >> 1u8, (k - 1) as nat)
    }
}

/// Product in GF(256).
pub open spec fn gf_mul(a: u8, b: u8) -> u8 {
    gf_mul_steps(a, b, 8)
}

/// The generator element raised to `i`: the antilog table.
pub open spec fn gf_exp(i: nat) -> u8
    decreases i,
{
    if i == 0 {
        1
    } else {
        xtime(gf_exp((i - 1) as nat))
    }
}

/// `p(x) * (x - r)`, coefficients highest degree first; minus is plus in GF(256).
pub open spec fn mul_linear(p: Seq<u8>, r: u8) -> Seq<u8> {
    Seq::new(
        p.len() + 1,
        |j: int|
            (if j < p.len() {
                p[j]
            } else {
                0u8
            }) ^ (if j >= 1 {
                gf_mul(p[j - 1], r)
            } else {
                0u8
            }),
    )
}

/// The generator polynomial of degree `n`: the product of `(x - 2^i)` for `i < n`,
/// highest degree first.
pub open spec fn generator(n: nat) -> Seq<u8>
    decreases n,
{
    if n == 0 {
        seq![1u8]
    } else {
        mul_linear(generator((n - 1) as nat), gf_exp((n - 1) as nat))
    }
}

/// The remainder of `data(x) * x^n` divided by `gen`, highest degree first, computed one
/// data codeword at a time (each step is one step of the long division).
pub open spec fn remainder(data: Seq<u8>, gen: Seq<u8>, n: nat) -> Seq<u8>
    decreases data.len(),
{
    if data.len() == 0 {
        Seq::new(n, |j: int| 0u8)
    } else {
        let r = remainder(data.drop_last(), gen, n);
        let f = data.last() ^ r[0];
        Seq::new(
            n,
            |j: int|
                (if j + 1 < n {
                    r[j + 1]
                } else {
                    0u8
                }) ^ gf_mul(gen[j + 1], f),
        )
    }
}

/// The `n` error-correction codewords of a block.
pub open spec fn ec_codewords(data: Seq<u8>, n: nat) -> Seq<u8> {
    remainder(data, generator(n), n)
}

/// Multiplies by 2 in GF(256).
pub fn gf_double(a: u8) -> (r: u8)
    ensures
        r == xtime(a),
{
    if a & 0x80 != 0 {
        (a << 1) ^ 0x1D
    } else {
        a << 1
    }
}

/// Multiplies in GF(256).
pub fn gf_multiply(a: u8, b: u8) -> (r: u8)
    ensures
        r == gf_mul(a, b),
{
    let mut acc: u8 = 0;
    let mut x = a;
    let mut y = b;
    let mut k: usize = 0;
    let ghost m = gf_mul(a, b);
    assert(0u8 ^ m == m) by (bit_vector);
    while k < 8
        invariant
            k <= 8,
            acc ^ gf_mul_steps(x, y, (8 - k) as nat) == gf_mul(a, b),
        decreases 8 - k,
    {
        let t: u8 = if y & 1 == 1 {
            x
        } else {
            0
        };
        let ghost rest = gf_mul_steps(xtime(x), y >> 1u8, (7 - k) as nat);
        assert(gf_mul_steps(x, y, (8 - k) as nat) == t ^ rest);
        assert((acc ^ t) ^ rest == acc ^ (t ^ rest)) by (bit_vector);
        acc = acc ^ t;
        x = gf_double(x);
        y = y >> 1;
        k += 1;
    }
    assert(acc ^ 0u8 == acc) by (bit_vector);
    acc
}

fn multiply_linear(p: &Vec<u8>, r: u8) -> (q: Vec<u8>)
    requires
        p.len() < usize::MAX,
    ensures
        q@ == mul_linear(p@, r),
{
    let mut q: Vec<u8> = Vec::new();
    let mut j: usize = 0;
    while j <= p.len()
        invariant
            j <= p.len() + 1,
            p.len() < usize::MAX,
            q@ == mul_linear(p@, r).take(j as int),
        decreases p.len() + 1 - j,
    {
        let hi: u8 = if j < p.len() {
            p[j]
        } else {
            0
        };
        let lo: u8 = if j >= 1 {
            gf_multiply(p[j - 1], r)
        } else {
            0
        };
        q.push(hi ^ lo);
        j += 1;
        assert(q@ =~= mul_linear(p@, r).take(j as int));
    }
    assert(q@ =~= mul_linear(p@, r));
    q
}

/// The generator polynomial of degree `n`, highest degree first.
pub fn generator_polynomial(n: usize) -> (g: Vec<u8>)
    requires
        n < usize::MAX,
    ensures
        g@ == generator(n as nat),
        g@.len() == n + 1,
{
    let mut g: Vec<u8> = vec![1u8];
    let mut root: u8 = 1;
    let mut i: usize = 0;
    assert(g@ =~= generator(0));
    while i < n
        invariant
            i <= n < usize::MAX,
            g@ == generator(i as nat),
            g@.len() == i + 1,
            root == gf_exp(i as nat),
        decreases n - i,
    {
        g = multiply_linear(&g, root);
        root = gf_double(root);
        i += 1;
    }
    g
}

/// The `n` error-correction codewords of a block of data codewords.
pub fn reed_solomon_remainder(data: &Vec<u8>, n: usize) -> (r: Vec<u8>)
    requires
        1 <= n < usize::MAX,
    ensures
        r@ == ec_codewords(data@, n as nat),
        r@.len() == n,
{
    let gen = generator_polynomial(n);
    let mut rem: Vec<u8> = vec![0u8; n];
    assert(rem@ =~= remainder(data@.take(0), gen@, n as nat));
    let mut i: usize = 0;
    while i < data.len()
        invariant
            n >= 1,
            i <= data.len(),
            gen@ == generator(n as nat),
            gen@.len() == n + 1,
            rem@ == remainder(data@.take(i as int), gen@, n as nat),
            rem@.len() == n,
        decreases data.len() - i,
    {
        let f = data[i] ^ rem[0];
        let mut next: Vec<u8> = Vec::new();
        let mut j: usize = 0;
        let ghost prev = rem@;
        assert(data@.take(i + 1).drop_last() =~= data@.take(i as int));
        while j < n
            invariant
                n >= 1,
                j <= n,
                rem@ == prev,
                prev.len() == n,
                gen@.len() == n + 1,
                f == data@[i as int] ^ prev[0],
                i < data.len(),
                next@ == remainder(data@.take(i + 1), gen@, n as nat).take(j as int),
                remainder(data@.take(i as int), gen@, n as nat) == prev,
                data@.take(i + 1).drop_last() == data@.take(i as int),
                data@.take(i + 1).last() == data@[i as int],
            decreases n - j,
        {
            let shifted: u8 = if j + 1 < n {
                rem[j + 1]
            } else {
                0
            };
            next.push(shifted ^ gf_multiply(gen[j + 1], f));
            j += 1;
            assert(next@ =~= remainder(data@.take(i + 1), gen@, n as nat).take(j as int));
        }
        assert(next@ =~= remainder(data@.take(i + 1), gen@, n as nat));
        rem = next;
        i += 1;
    }
    assert(data@.take(i as int) =~= data@);
    rem
}

} // verus!
