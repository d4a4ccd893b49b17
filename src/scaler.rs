use vstd::prelude::*;

verus! {

/// The number of consecutive input elements averaged into one output element
/// when `len` elements are scaled down to `new_len`.
pub open spec fn band_size(len: nat, new_len: nat) -> nat {
    len / new_len
}

/// The number of output elements when `len` elements are scaled down to
/// `new_len`: one per full band; a trailing partial band is dropped.
pub open spec fn band_count(len: nat, new_len: nat) -> nat {
    len / band_size(len, new_len)
}

proof fn lemma_band_size_positive(len: nat, new_len: nat)
    requires
        0 < new_len < len,
    ensures
        band_size(len, new_len) > 0,
        band_count(len, new_len) * band_size(len, new_len) <= len,
{
    let b = len / new_len;
    assert(b > 0) by (nonlinear_arith)
        requires 0 < new_len < len, b == len / new_len;
    assert((len / b) * b <= len) by (nonlinear_arith)
        requires b > 0;
}

/// Scales `input` down to about `new_len` elements by block averaging.
///
/// When `new_len` is at least the input's length, the input comes back
/// unchanged. Otherwise the input is cut into consecutive bands of
/// `input.len() / new_len` elements, and each full band gives one output
/// element: the value that `mean(start, count)` returns for the band's first
/// index and its length. Trailing elements that do not fill a band are
/// dropped.
pub fn scale_fft_output<T: Copy, F: Fn(usize, usize) -> T>(input: &[T], new_len: usize, mean: F) -> (r: Vec<T>)
    requires
        new_len > 0 || input@.len() == 0,
        forall|start: usize, count: usize|
            start + count <= input@.len() ==> #[trigger] mean.requires((start, count)),
    ensures
        new_len >= input@.len() ==> r@ == input@,
        new_len < input@.len() ==> {
            let b = band_size(input@.len(), new_len as nat);
            &&& r@.len() == band_count(input@.len(), new_len as nat)
            &&& forall|i: int|
                0 <= i < r@.len() ==> mean.ensures(((i * b) as usize, b as usize), #[trigger] r@[i])
        },
        new_len < input@.len() && input@.len() % (new_len as nat) == 0 ==> r@.len() == new_len,
{
    let len = input.len();
    if new_len >= len {
        let mut same: Vec<T> = Vec::with_capacity(len);
        let mut i: usize = 0;
        while i < len
            invariant
                len == input@.len(),
                i <= len,
                same@ == input@.subrange(0, i as int),
            decreases len - i,
        {
            same.push(input[i]);
            i += 1;
        }
        assert(same@ == input@);
        return same;
    }
    let band: usize = len / new_len;
    proof {
        lemma_band_size_positive(len as nat, new_len as nat);
        if len % new_len == 0 {
            lemma_exact_multiple_gives_new_len(len as nat, new_len as nat);
        }
    }
    let bands: usize = len / band;
    let mut out: Vec<T> = Vec::with_capacity(bands);
    let mut b: usize = 0;
    let mut start: usize = 0;
    while b < bands
        invariant
            len == input@.len(),
            band == band_size(len as nat, new_len as nat),
            bands == band_count(len as nat, new_len as nat),
            band > 0,
            bands * band <= len,
            b <= bands,
            start == b * band,
            out@.len() == b,
            forall|start: usize, count: usize|
                start + count <= input@.len() ==> #[trigger] mean.requires((start, count)),
            forall|i: int| 0 <= i < b ==> mean.ensures(((i * band) as usize, band), #[trigger] out@[i]),
        decreases bands - b,
    {
        assert(start + band <= len) by (nonlinear_arith)
            requires start == b * band, b < bands, bands * band <= len, band > 0;
        let v = mean(start, band);
        out.push(v);
        proof {
            assert((b + 1) * band == b * band + band) by (nonlinear_arith);
        }
        start = start + band;
        b += 1;
    }
    out
}

/// When the input's length is a multiple of the requested length, scaling
/// gives exactly the requested number of bands, each one band of
/// `len / new_len` consecutive elements.
pub proof fn lemma_exact_multiple_gives_new_len(len: nat, new_len: nat)
    requires
        0 < new_len < len,
        len % new_len == 0,
    ensures
        band_count(len, new_len) == new_len,
        band_size(len, new_len) * new_len == len,
{
    let b = len / new_len;
    assert(b * new_len == len) by (nonlinear_arith)
        requires len % new_len == 0, b == len / new_len, new_len > 0;
    assert(b > 0) by (nonlinear_arith)
        requires b * new_len == len, len > 0, b >= 0;
    assert(len / b == new_len) by (nonlinear_arith)
        requires b * new_len == len, b > 0;
}

} // verus!
