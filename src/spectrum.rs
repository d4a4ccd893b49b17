use vstd::prelude::*;

verus! {

/// True when `x` is a power of two of at least 2: a transform of one sample
/// would leave no frequency bin, and the window needs two samples.
pub open spec fn is_pow2(x: nat) -> bool
    decreases x,
{
    if x < 2 {
        false
    } else if x == 2 {
        true
    } else {
        x % 2 == 0 && is_pow2(x / 2)
    }
}

proof fn lemma_bit_trick_even(x: usize)
    requires
        x >= 2,
        x % 2 == 0,
    ensures
        (x & ((x - 1) as usize) == 0) == ((x / 2) & ((x / 2 - 1) as usize) == 0),
{
    assert((x & ((x - 1) as usize) == 0) == ((x / 2) & ((x / 2 - 1) as usize) == 0)) by (bit_vector)
        requires
            x >= 2,
            x % 2 == 0,
    ;
}

proof fn lemma_bit_trick(x: usize)
    requires
        x >= 2,
    ensures
        (x & ((x - 1) as usize) == 0) == is_pow2(x as nat),
    decreases x,
{
    if x == 2 {
        assert(x & ((x - 1) as usize) == 0) by (bit_vector)
            requires
                x == 2,
        ;
    } else if x % 2 == 0 {
        lemma_bit_trick_even(x);
        lemma_bit_trick((x / 2) as usize);
    } else {
        assert(x & ((x - 1) as usize) != 0) by (bit_vector)
            requires
                x > 1,
                x % 2 == 1,
        ;
    }
}

/// Whether `x` is a power of two of at least 2, the sizes a transform can have.
pub fn is_power_of_two(x: usize) -> (r: bool)
    ensures
        r == is_pow2(x as nat),
{
    if x < 2 {
        return false;
    }
    proof {
        lemma_bit_trick(x);
    }
    (x & (x - 1)) == 0
}

/// Opaque handle of an execution plan of the transform engine: it is only
/// ever seen behind a pointer that the engine hands out, never built here.
pub struct FftwPlan {
    _opaque: (),
}

/// Bytes per sample: signed 16-bit PCM.
pub const BYTES_PER_SAMPLE: usize = 2;

/// The channel whose samples are analysed.
pub const ANALYSIS_CHANNEL: usize = 0;

/// Byte order of the 16-bit samples in a raw frame.
#[derive(Clone, Copy, Debug, PartialEq, Eq)]
pub enum ByteOrder {
    Little,
    Big,
}

/// Why a transform of the requested shape cannot be set up.
#[derive(Clone, Copy, Debug, PartialEq, Eq)]
pub enum ConfigurationError {
    /// The transform size is not a power of two of at least 2.
    NotPowerOfTwo,
    /// No channel was requested.
    NoChannels,
    /// A raw frame would not fit in memory.
    FrameTooLarge,
}

/// A raw frame whose length is not the one the configuration expects.
#[derive(Clone, Copy, Debug, PartialEq, Eq)]
pub struct BufferSizeError {
    pub expected: usize,
    pub actual: usize,
}

/// The signed value of a 16-bit two's-complement word.
pub open spec fn word_value(lo: u8, hi: u8) -> int {
    let u = lo as int + 256 * hi as int;
    if u >= 32768 {
        u - 65536
    } else {
        u
    }
}

/// The sample at index `i` of a raw byte sequence.
pub open spec fn sample_at(bytes: Seq<u8>, order: ByteOrder, i: int) -> int {
    match order {
        ByteOrder::Little => word_value(bytes[2 * i], bytes[2 * i + 1]),
        ByteOrder::Big => word_value(bytes[2 * i + 1], bytes[2 * i]),
    }
}

/// The samples of a raw byte sequence, two bytes each; a trailing odd byte is ignored.
pub open spec fn decoded(bytes: Seq<u8>, order: ByteOrder) -> Seq<int> {
    Seq::new(bytes.len() / 2, |i: int| sample_at(bytes, order, i))
}

/// Whether `ch` holds, in order, the samples of `samples` at indices `k`,
/// `k + c`, `k + 2c`, ..., all of those below `samples.len()` and no more.
pub open spec fn is_channel(ch: Seq<i16>, samples: Seq<i16>, c: nat, k: nat) -> bool {
    &&& forall|m: int| 0 <= m < ch.len() ==> #[trigger] ch[m] == samples[m * c + k]
    &&& ch.len() * c + k >= samples.len()
    &&& ch.len() * c + k < samples.len() + c
}

fn word_from_bytes(lo: u8, hi: u8) -> (r: i16)
    ensures
        r as int == word_value(lo, hi),
{
    let u: i32 = lo as i32 + 256 * (hi as i32);
    if u >= 32768 {
        (u - 65536) as i16
    } else {
        u as i16
    }
}

/// How a raw frame is laid out and which part of it is analysed.
pub struct Preprocessor {
    n: usize,
    channels: usize,
    order: ByteOrder,
}

impl Preprocessor {
    /// The transform size.
    pub closed spec fn spec_n(&self) -> nat {
        self.n as nat
    }

    /// The number of interleaved channels.
    pub closed spec fn spec_channels(&self) -> nat {
        self.channels as nat
    }

    /// The byte order of the samples.
    pub closed spec fn spec_order(&self) -> ByteOrder {
        self.order
    }

    /// The length of a raw frame in bytes.
    pub open spec fn frame_len(&self) -> nat {
        self.spec_n() * 2 * self.spec_channels()
    }

    pub closed spec fn wf(&self) -> bool {
        &&& is_pow2(self.n as nat)
        &&& self.channels > 0
        &&& self.n * 2 * self.channels <= usize::MAX
    }

    /// Sets up the layout of frames of `n` samples per channel.
    pub fn new(n: usize, channels: usize, order: ByteOrder) -> (r: Result<Preprocessor, ConfigurationError>)
        ensures
            !is_pow2(n as nat) ==> r == Err::<Preprocessor, _>(ConfigurationError::NotPowerOfTwo),
            is_pow2(n as nat) && channels == 0 ==> r == Err::<Preprocessor, _>(ConfigurationError::NoChannels),
            is_pow2(n as nat) && channels > 0 && n * 2 * channels > usize::MAX
                ==> r == Err::<Preprocessor, _>(ConfigurationError::FrameTooLarge),
            is_pow2(n as nat) && channels > 0 && n * 2 * channels <= usize::MAX ==> r is Ok,
            r matches Ok(p) ==> p.wf() && p.spec_n() == n && p.spec_channels() == channels
                && p.spec_order() == order,
    {
        if !is_power_of_two(n) {
            return Err(ConfigurationError::NotPowerOfTwo);
        }
        if channels == 0 {
            return Err(ConfigurationError::NoChannels);
        }
        if n > usize::MAX / BYTES_PER_SAMPLE / channels {
            proof {
                assert(n * 2 * channels > usize::MAX) by (nonlinear_arith)
                    requires n > usize::MAX / 2 / channels, channels > 0;
            }
            return Err(ConfigurationError::FrameTooLarge);
        }
        proof {
            assert(n * 2 * channels <= usize::MAX) by (nonlinear_arith)
                requires n <= usize::MAX / 2 / channels, channels > 0;
        }
        Ok(Preprocessor { n, channels, order })
    }

    /// Returns the number of bytes one raw frame must have.
    pub fn get_buf_size(&self) -> (r: usize)
        requires
            self.wf(),
        ensures
            r == self.frame_len(),
    {
        proof {
            let (n, c) = (self.n as int, self.channels as int);
            assert(n * 2 <= n * 2 * c) by (nonlinear_arith)
                requires n >= 0, c >= 1;
        }
        self.n * BYTES_PER_SAMPLE * self.channels
    }

    /// Reads the 16-bit samples out of a raw buffer, in this layout's byte order.
    pub fn get_samples(&self, buffer: &[u8]) -> (r: Vec<i16>)
        ensures
            r@.len() == buffer@.len() / 2,
            forall|i: int|
                0 <= i < r@.len() ==> #[trigger] r@[i] as int == decoded(buffer@, self.spec_order())[i],
    {
        let len = buffer.len();
        let count = len / BYTES_PER_SAMPLE;
        let mut out: Vec<i16> = Vec::with_capacity(count);
        let mut i: usize = 0;
        while i < count
            invariant
                len == buffer@.len(),
                count == len / 2,
                i <= count,
                out@.len() == i,
                forall|j: int|
                    0 <= j < i ==> #[trigger] out@[j] as int == decoded(buffer@, self.order)[j],
            decreases count - i,
        {
            assert(2 * i + 1 < buffer@.len());
            let (lo, hi) = match self.order {
                ByteOrder::Little => (buffer[2 * i], buffer[2 * i + 1]),
                ByteOrder::Big => (buffer[2 * i + 1], buffer[2 * i]),
            };
            out.push(word_from_bytes(lo, hi));
            i += 1;
        }
        out
    }

    /// Splits interleaved samples into one sequence per channel: the sample at
    /// index `i` goes to channel `i % channels`, in order.
    pub fn split_channels(&self, samples: &Vec<i16>) -> (r: Vec<Vec<i16>>)
        requires
            self.wf(),
        ensures
            r@.len() == self.spec_channels(),
            forall|k: int|
                0 <= k < r@.len() ==> is_channel(#[trigger] r@[k]@, samples@, self.spec_channels(), k as nat),
    {
        let c = self.channels;
        let len = samples.len();
        let mut out: Vec<Vec<i16>> = Vec::with_capacity(c);
        let mut k: usize = 0;
        while k < c
            invariant
                c == self.channels,
                c > 0,
                len == samples@.len(),
                k <= c,
                out@.len() == k,
                forall|q: int| 0 <= q < k ==> is_channel(#[trigger] out@[q]@, samples@, c as nat, q as nat),
            decreases c - k,
        {
            let mut ch: Vec<i16> = Vec::new();
            let mut j: usize = k;
            assert(ch@.len() * c == 0) by (nonlinear_arith)
                requires ch@.len() == 0;
            while j < len
                invariant
                    c > 0,
                    len == samples@.len(),
                    j < len ==> j == ch@.len() * c + k,
                    k < c,
                    j >= len ==> ch@.len() * c + k >= len,
                    ch@.len() * c + k < len + c,
                    forall|m: int| 0 <= m < ch@.len() ==> #[trigger] ch@[m] == samples@[m * c + k],
                decreases len - j,
            {
                let ghost old_ch = ch@;
                ch.push(samples[j]);
                proof {
                    let m = ch@.len() as int;
                    assert(m * c == (m - 1) * c + c) by (nonlinear_arith);
                    assert(j == (m - 1) * c + k);
                    assert forall|p: int| 0 <= p < ch@.len() implies
                        #[trigger] ch@[p] == samples@[p * c + k] by {
                        if p < old_ch.len() {
                            assert(ch@[p] == old_ch[p]);
                        }
                    }
                }
                if c >= len - j {
                    j = len;
                } else {
                    j = j + c;
                }
            }
            assert(is_channel(ch@, samples@, c as nat, k as nat));
            let ghost old_out = out@;
            out.push(ch);
            proof {
                assert forall|q: int| 0 <= q < k + 1 implies is_channel(
                    #[trigger] out@[q]@, samples@, c as nat, q as nat) by {
                    if q < k {
                        assert(out@[q] == old_out[q]);
                    }
                }
            }
            k += 1;
        }
        out
    }

    /// The samples of the analysed channel of a raw frame, or the error when
    /// the buffer does not have the length of a frame. Nothing is changed
    /// either way.
    pub fn analysis_channel(&self, buffer: &[u8]) -> (r: Result<Vec<i16>, BufferSizeError>)
        requires
            self.wf(),
        ensures
            buffer@.len() != self.frame_len() <==> r is Err,
            r matches Err(e) ==> e.expected == self.frame_len() && e.actual == buffer@.len(),
            r matches Ok(ch) ==> ch@.len() == self.spec_n() && forall|m: int|
                0 <= m < ch@.len() ==> #[trigger] ch@[m] as int == decoded(buffer@, self.spec_order())[
                    m * self.spec_channels() + ANALYSIS_CHANNEL],
    {
        let expected = self.get_buf_size();
        if buffer.len() != expected {
            return Err(BufferSizeError { expected, actual: buffer.len() });
        }
        let samples = self.get_samples(buffer);
        let mut channels = self.split_channels(&samples);
        assert(is_channel(channels@[0]@, samples@, self.channels as nat, 0));
        let ch = channels.swap_remove(ANALYSIS_CHANNEL);
        proof {
            let (n, c) = (self.n as int, self.channels as int);
            assert(samples@.len() == n * c) by (nonlinear_arith)
                requires samples@.len() == buffer@.len() / 2, buffer@.len() == n * 2 * c;
            assert(ch@.len() == n) by (nonlinear_arith)
                requires
                    ch@.len() * c >= n * c,
                    ch@.len() * c < n * c + c,
                    c > 0;
            assert forall|m: int| 0 <= m < ch@.len() implies #[trigger] ch@[m] as int == decoded(
                buffer@, self.order)[m * c + ANALYSIS_CHANNEL] by {
                assert(m * c < n * c) by (nonlinear_arith)
                    requires 0 <= m < n, c > 0;
                assert(ch@[m] == samples@[m * c + 0]);
                assert(samples@[m * c] as int == decoded(buffer@, self.order)[m * c]);
            }
        }
        Ok(ch)
    }
}

} // verus!
