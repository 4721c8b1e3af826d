use vstd::prelude::*;

verus! {

/// Column and row of the `k`-th pixel in render order: rows from the top
/// (`ny - 1`) down to `0`, each row from left to right.
pub open spec fn scan_pixel(k: nat, nx: nat, ny: nat) -> (nat, nat) {
    ((k % nx) as nat, (ny - 1 - k / nx) as nat)
}

/// Position in render order of the pixel at column `i` and row `j`.
pub open spec fn scan_index(i: nat, j: nat, nx: nat, ny: nat) -> nat {
    ((ny - 1 - j) * nx + i) as nat
}

/// The `k`-th pixel in render order of an `nx` by `ny` image.
pub fn pixel_at(k: usize, nx: usize, ny: usize) -> (r: (usize, usize))
    requires
        nx > 0,
        ny > 0,
        k < nx * ny,
    ensures
        (r.0 as nat, r.1 as nat) == scan_pixel(k as nat, nx as nat, ny as nat),
        r.0 < nx,
        r.1 < ny,
{
    proof {
        lemma_row_in_range(k as nat, nx as nat, ny as nat);
    }
    (k % nx, ny - 1 - k / nx)
}

proof fn lemma_row_in_range(k: nat, nx: nat, ny: nat)
    requires
        nx > 0,
        k < nx * ny,
    ensures
        k / nx < ny,
{
    let q = k / nx;
    vstd::arithmetic::div_mod::lemma_fundamental_div_mod(k as int, nx as int);
    assert(q < ny) by (nonlinear_arith)
        requires
            k == nx * q + k % nx,
            k % nx >= 0,
            k < nx * ny,
            nx > 0,
    ;
}

/// Every pixel of the image comes exactly once in render order: the `k`-th
/// pixel lies in the image and sits at position `k`, and each pixel of the
/// image is the one at its own position.
pub proof fn lemma_scan_order_is_bijective(k: nat, i: nat, j: nat, nx: nat, ny: nat)
    requires
        nx > 0,
        ny > 0,
    ensures
        k < nx * ny ==> {
            let (pi, pj) = scan_pixel(k, nx, ny);
            &&& pi < nx
            &&& pj < ny
            &&& scan_index(pi, pj, nx, ny) == k
        },
        i < nx && j < ny ==> {
            &&& scan_index(i, j, nx, ny) < nx * ny
            &&& scan_pixel(scan_index(i, j, nx, ny), nx, ny) == (i, j)
        },
{
    if k < nx * ny {
        lemma_row_in_range(k, nx, ny);
        vstd::arithmetic::div_mod::lemma_fundamental_div_mod(k as int, nx as int);
        vstd::arithmetic::div_mod::lemma_mod_bound(k as int, nx as int);
        let q = k / nx;
        assert((ny - 1 - (ny - 1 - q)) == q);
        assert(((ny - 1 - q) as nat) == ny - 1 - q);
        assert(nx * q == q * nx) by (nonlinear_arith);
    }
    if i < nx && j < ny {
        let r = (ny - 1 - j) as nat;
        assert(r < ny);
        assert(r * nx + i < nx * ny) by (nonlinear_arith)
            requires
                r < ny,
                i < nx,
        ;
        vstd::arithmetic::div_mod::lemma_fundamental_div_mod_converse(
            (r * nx + i) as int,
            nx as int,
            r as int,
            i as int,
        );
    }
}

/// Positions `0 .. nx * ny` of an `nx` by `ny` image, as pixels in render order.
pub fn scan_order(nx: usize, ny: usize) -> (r: Vec<(usize, usize)>)
    requires
        nx > 0,
        ny > 0,
        nx * ny <= usize::MAX,
    ensures
        r@.len() == nx * ny,
        forall|k: int|
            0 <= k < r@.len() ==> (r@[k].0 as nat, r@[k].1 as nat) == scan_pixel(
                k as nat,
                nx as nat,
                ny as nat,
            ),
{
    let n: usize = nx * ny;
    let mut out: Vec<(usize, usize)> = Vec::with_capacity(n);
    let mut k: usize = 0;
    while k < n
        invariant
            nx > 0,
            ny > 0,
            n == nx * ny,
            k <= n,
            out@.len() == k,
            forall|m: int|
                0 <= m < k ==> (out@[m].0 as nat, out@[m].1 as nat) == scan_pixel(
                    m as nat,
                    nx as nat,
                    ny as nat,
                ),
        decreases n - k,
    {
        let p = pixel_at(k, nx, ny);
        out.push(p);
        k = k + 1;
    }
    out
}

/// Bytes of an RGB image: the three channels of each pixel in turn.
pub open spec fn packed(pixels: Seq<(u8, u8, u8)>) -> Seq<u8>
    decreases pixels.len(),
{
    if pixels.len() == 0 {
        Seq::empty()
    } else {
        let p = pixels.last();
        packed(pixels.drop_last()).push(p.0).push(p.1).push(p.2)
    }
}

proof fn lemma_packed_channels(pixels: Seq<(u8, u8, u8)>)
    ensures
        packed(pixels).len() == 3 * pixels.len(),
        forall|k: int|
            0 <= k < pixels.len() ==> {
                &&& #[trigger] packed(pixels)[3 * k] == pixels[k].0
                &&& packed(pixels)[3 * k + 1] == pixels[k].1
                &&& packed(pixels)[3 * k + 2] == pixels[k].2
            },
    decreases pixels.len(),
{
    if pixels.len() > 0 {
        lemma_packed_channels(pixels.drop_last());
    }
}

/// Lays out one RGB triple per pixel as a flat byte buffer, in the pixels' order.
pub fn pack_pixels(pixels: &Vec<(u8, u8, u8)>) -> (r: Vec<u8>)
    requires
        3 * pixels@.len() <= usize::MAX,
    ensures
        r@ == packed(pixels@),
        r@.len() == 3 * pixels@.len(),
        forall|k: int|
            0 <= k < pixels@.len() ==> {
                &&& #[trigger] r@[3 * k] == pixels@[k].0
                &&& r@[3 * k + 1] == pixels@[k].1
                &&& r@[3 * k + 2] == pixels@[k].2
            },
{
    let mut out: Vec<u8> = Vec::with_capacity(3 * pixels.len());
    let mut k: usize = 0;
    while k < pixels.len()
        invariant
            k <= pixels@.len(),
            out@ == packed(pixels@.subrange(0, k as int)),
        decreases pixels@.len() - k,
    {
        let p = pixels[k];
        assert(pixels@.subrange(0, k as int + 1).drop_last() =~= pixels@.subrange(0, k as int));
        out.push(p.0);
        out.push(p.1);
        out.push(p.2);
        k = k + 1;
    }
    assert(pixels@.subrange(0, pixels@.len() as int) =~= pixels@);
    proof {
        lemma_packed_channels(pixels@);
    }
    out
}

} // verus!
