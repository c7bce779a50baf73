//! Small helpers, and the truncation of strings at safe boundaries.
use vstd::prelude::*;
use vstd::string::StringSliceAdditionalSpecFns;
use vstd::utf8::{is_char_boundary as utf8_char_boundary, is_continuation_byte, valid_utf8,
    is_char_boundary_iff_not_is_continuation_byte, is_char_boundary_start_end_of_seq};

use crate::escape::{byte_len, escaped_len, lemma_escaped_len_prefix, lemma_escaped_push};

verus! {

/// The smaller of two lengths.
pub fn min_usize(l: usize, r: usize) -> (m: usize)
    ensures
        m == if l < r { l } else { r },
{
    if l < r {
        l
    } else {
        r
    }
}

/// The larger of two lengths.
pub fn max_usize(l: usize, r: usize) -> (m: usize)
    ensures
        m == if l > r { l } else { r },
{
    if l > r {
        l
    } else {
        r
    }
}

/// The largest element of `s`, or zero for an empty sequence.
pub open spec fn seq_max(s: Seq<usize>) -> usize
    decreases s.len(),
{
    if s.len() == 0 {
        0
    } else {
        let m = seq_max(s.drop_last());
        if s.last() > m {
            s.last()
        } else {
            m
        }
    }
}

/// The largest element of a slice, or zero for an empty slice.
pub fn slice_max_usize(slice: &[usize]) -> (m: usize)
    ensures
        m == seq_max(slice@),
{
    let mut max: usize = 0;
    let mut i: usize = 0;
    while i < slice.len()
        invariant
            i <= slice@.len(),
            max == seq_max(slice@.take(i as int)),
        decreases slice@.len() - i,
    {
        assert(slice@.take(i + 1).drop_last() =~= slice@.take(i as int));
        max = max_usize(max, slice[i]);
        i = i + 1;
    }
    assert(slice@.take(i as int) =~= slice@);
    max
}

/// The last `len` bytes of an array of `LEN` bytes, and where they start.
#[derive(Debug, PartialEq, Eq)]
pub struct StartAndBytes<const LEN: usize> {
    pub start: u8,
    pub bytes: [u8; LEN],
}

/// An array of `TO` bytes holding the first `len` bytes of `input` at its
/// end, zeros before them.
pub fn tail_byte_array<const TO: usize>(len: usize, input: &[u8]) -> (r: StartAndBytes<TO>)
    requires
        len <= TO,
        len <= input@.len(),
        TO - len < 256,
    ensures
        r.start == TO - len,
        r.bytes@ == Seq::new((TO - len) as nat, |i: int| 0u8) + input@.take(len as int),
{
    let mut bytes = [0u8; TO];
    let start = TO - len;
    let mut i = start;
    let mut j: usize = 0;
    while j < len
        invariant
            start == TO - len,
            i == start + j,
            j <= len <= input@.len(),
            len <= TO,
            bytes@.len() == TO,
            forall|k: int| 0 <= k < start ==> bytes@[k] == 0u8,
            forall|k: int| 0 <= k < j ==> bytes@[start + k] == input@[k],
        decreases len - j,
    {
        bytes.set(i, input[j]);
        i = i + 1;
        j = j + 1;
    }
    assert(bytes@ =~= Seq::new((TO - len) as nat, |i: int| 0u8) + input@.take(len as int));
    StartAndBytes { start: start as u8, bytes }
}

/// The first `upto` bytes of `buffer`, or all of it when it is shorter.
pub fn bytes_up_to(buffer: &[u8], upto: usize) -> (r: &[u8])
    ensures
        r@ == if upto > buffer@.len() { buffer@ } else { buffer@.take(upto as int) },
{
    if upto > buffer.len() {
        return buffer;
    }
    vstd::slice::slice_subrange(buffer, 0, upto)
}

/// `bytes` without its trailing zero bytes.
pub open spec fn trim_nul_spec(bytes: Seq<u8>) -> Seq<u8>
    decreases bytes.len(),
{
    if bytes.len() > 0 && bytes.last() == 0 {
        trim_nul_spec(bytes.drop_last())
    } else {
        bytes
    }
}

/// `bytes` without its trailing zero bytes.
pub fn trim_trailing_nul(bytes: &[u8]) -> (r: &[u8])
    ensures
        r@ == trim_nul_spec(bytes@),
{
    let mut n = bytes.len();
    assert(bytes@.take(n as int) =~= bytes@);
    while n > 0 && bytes[n - 1] == 0
        invariant
            n <= bytes@.len(),
            trim_nul_spec(bytes@.take(n as int)) == trim_nul_spec(bytes@),
        decreases n,
    {
        assert(bytes@.take(n as int).drop_last() =~= bytes@.take(n - 1));
        n = n - 1;
    }
    assert(bytes@.take(n as int) =~= bytes@.subrange(0, n as int));
    assert(trim_nul_spec(bytes@.take(n as int)) == bytes@.take(n as int));
    vstd::slice::slice_subrange(bytes, 0, n)
}

/// Cuts a Display string to at most `truncate_to` bytes at the start of a
/// character, giving the kept bytes and whether any were dropped.
pub fn truncate_str(bytes: &[u8], truncate_to: usize) -> (r: (&[u8], bool))
    ensures
        display_truncation(bytes@, truncate_to as nat,
            if r.1 { WasTruncated::Yes(r.0@.len() as usize) } else { WasTruncated::No }),
        r.0@ == bytes@.take(r.0@.len() as int),
{
    match truncated_str_len(bytes, truncate_to) {
        WasTruncated::No => {
            assert(bytes@.take(bytes@.len() as int) =~= bytes@);
            (bytes, false)
        },
        WasTruncated::Yes(i) => (vstd::slice::slice_subrange(bytes, 0, i), true),
    }
}

/// Relies on `core::str::from_utf8`: it succeeds exactly on valid UTF-8,
/// and the string it gives holds the same bytes.
#[verifier::external_body]
pub(crate) fn utf8_str(bytes: &[u8]) -> (r: Option<&str>)
    ensures
        r is Some <==> valid_utf8(bytes@),
        r is Some ==> r->Some_0.spec_bytes() == bytes@,
{
    core::str::from_utf8(bytes).ok()
}

/// The `FROM` bytes of `input` followed by zeros, in an array of `TO`
/// bytes.
pub fn extend_byte_array<const FROM: usize, const TO: usize>(input: [u8; FROM]) -> (r: [u8; TO])
    requires
        FROM <= TO,
    ensures
        r@ == input@ + Seq::new((TO - FROM) as nat, |i: int| 0u8),
{
    let mut out = [0u8; TO];
    let mut i: usize = 0;
    while i < FROM
        invariant
            FROM <= TO,
            i <= FROM,
            out@.len() == TO,
            input@.len() == FROM,
            forall|k: int| 0 <= k < i ==> out@[k] == input@[k],
            forall|k: int| i <= k < TO ==> out@[k] == 0u8,
        decreases FROM - i,
    {
        out.set(i, input[i]);
        i = i + 1;
    }
    assert(out@ =~= input@ + Seq::new((TO - FROM) as nat, |i: int| 0u8));
    out
}

/// Whether a byte starts a character, that is, is no UTF-8 continuation byte.
pub fn is_char_boundary(b: u8) -> (r: bool)
    ensures
        r == !is_continuation_byte(b),
{
    b < 128 || b >= 192
}

/// Whether a cut of `s` before index `i` splits no character: the start, the
/// end, or a byte that is no continuation byte.
pub open spec fn is_cut(s: Seq<u8>, i: int) -> bool {
    i == 0 || i == s.len() || (0 <= i < s.len() && !is_continuation_byte(s[i]))
}

/// Whether a string was cut short, and if so how many of its bytes are kept.
#[derive(Debug, Copy, Clone, PartialEq, Eq, Structural)]
pub enum WasTruncated {
    Yes(usize),
    No,
}

impl WasTruncated {
    /// The number of bytes kept, out of `len`.
    pub open spec fn kept(self, len: nat) -> nat {
        match self {
            WasTruncated::Yes(x) => x as nat,
            WasTruncated::No => len,
        }
    }

    /// The number of bytes kept, out of `len`.
    pub fn get_length(self, len: usize) -> (r: usize)
        ensures
            r == self.kept(len as nat),
    {
        match self {
            WasTruncated::Yes(x) => x,
            WasTruncated::No => len,
        }
    }
}

/// `i` is the longest prefix of `s` of at most `k` bytes that splits no
/// character.
pub open spec fn is_display_cut(s: Seq<u8>, k: nat, i: nat) -> bool {
    &&& i <= k
    &&& i <= s.len()
    &&& is_cut(s, i as int)
    &&& forall|b: int| i < b <= k && b <= s.len() ==> !#[trigger] is_cut(s, b)
}

/// How a Display string of bytes `s` is cut to fit `k` bytes.
pub open spec fn display_truncation(s: Seq<u8>, k: nat, r: WasTruncated) -> bool {
    match r {
        WasTruncated::No => s.len() <= k,
        WasTruncated::Yes(i) => s.len() > k && is_display_cut(s, k, i as nat),
    }
}

/// `i` is the longest prefix of `s` that splits no character and whose
/// Debug form, with its opening quote, fits in `k` bytes.
pub open spec fn is_debug_cut(s: Seq<u8>, k: nat, i: nat) -> bool {
    &&& i <= s.len()
    &&& is_cut(s, i as int)
    &&& (k == 0 ==> i == 0)
    &&& (k > 0 ==> 1 + escaped_len(s.take(i as int)) <= k)
    &&& forall|b: int| i < b <= s.len() && #[trigger] is_cut(s, b) ==> 1 + escaped_len(s.take(b)) > k
}

/// How a Debug string of bytes `s` is cut so that its quoted, escaped form
/// fits in `k` bytes.
pub open spec fn debug_truncation(s: Seq<u8>, k: nat, r: WasTruncated) -> bool {
    match r {
        WasTruncated::No => escaped_len(s) + 2 <= k,
        WasTruncated::Yes(i) => escaped_len(s) + 2 > k && is_debug_cut(s, k, i as nat),
    }
}

/// Cuts a Display string to at most `truncate_to` bytes, backing off to the
/// start of the character that the cut would split.
pub fn truncated_str_len(bytes: &[u8], truncate_to: usize) -> (r: WasTruncated)
    ensures
        display_truncation(bytes@, truncate_to as nat, r),
{
    if bytes.len() <= truncate_to {
        WasTruncated::No
    } else {
        let mut i = truncate_to;
        while i != 0 && !is_char_boundary(bytes[i])
            invariant
                i <= truncate_to < bytes@.len(),
                forall|b: int| i < b <= truncate_to ==> !#[trigger] is_cut(bytes@, b),
            decreases i,
        {
            i = i - 1;
        }
        WasTruncated::Yes(i)
    }
}

/// The first index from `i` on that splits no character.
pub fn next_char_boundary(bytes: &[u8], i: usize) -> (r: usize)
    requires
        i <= bytes@.len(),
    ensures
        i <= r <= bytes@.len(),
        is_cut(bytes@, r as int) || (r == i && i == 0),
        forall|b: int| i <= b < r ==> !#[trigger] is_cut(bytes@, b) || b == 0,
{
    let mut j = i;
    while j < bytes.len() && !is_char_boundary(bytes[j])
        invariant
            i <= j <= bytes@.len(),
            forall|b: int| i <= b < j ==> !#[trigger] is_cut(bytes@, b) || b == 0,
        decreases bytes@.len() - j,
    {
        j = j + 1;
    }
    j
}

/// Cuts a Debug string so that its escaped form, with the opening quote,
/// fits in `truncate_to` bytes, without splitting a character or an escape.
/// `No` means that the whole string fits, with both quotes.
pub fn truncated_debug_str_len(bytes: &[u8], truncate_to: usize) -> (r: WasTruncated)
    ensures
        debug_truncation(bytes@, truncate_to as nat, r),
{
    let s = Ghost(bytes@);
    let len = bytes.len();
    let k = truncate_to;
    if k >= 2 && len <= (k - 2) / 4 {
        // the longest escape takes four bytes, and the quotes two
        proof {
            lemma_escaped_len_prefix(s@, 0, len as nat);
            assert(s@.take(len as int) =~= s@);
            assert(s@.take(0) =~= Seq::<u8>::empty());
        }
        return WasTruncated::No;
    }
    if k == 0 {
        proof {
            assert(s@.take(len as int) =~= s@);
        }
        return WasTruncated::Yes(0);
    }
    let mut i: usize = 0;
    let mut j: usize = 0;
    let mut fmtlen: usize = 1;
    proof {
        assert(s@.take(0) =~= Seq::<u8>::empty());
    }
    loop
        invariant
            s@ == bytes@,
            len == bytes@.len(),
            k == truncate_to,
            k >= 1,
            i <= j <= len,
            fmtlen == 1 + escaped_len(s@.take(j as int)),
            fmtlen <= k,
            is_cut(s@, i as int),
            1 + escaped_len(s@.take(i as int)) <= k,
            forall|b: int| i < b < j ==> !#[trigger] is_cut(s@, b),
        ensures
            i == len,
            fmtlen == 1 + escaped_len(s@.take(len as int)),
            fmtlen <= k,
            s@ == bytes@,
            len == bytes@.len(),
            k == truncate_to,
        decreases len - j,
    {
        if j == len || is_char_boundary(bytes[j]) {
            i = j;
        }
        if j == len {
            break;
        }
        let bl = byte_len(bytes[j]);
        proof {
            lemma_escaped_push(s@, j as int);
        }
        if bl > k - fmtlen {
            proof {
                assert forall|b: int| i < b <= len && #[trigger] is_cut(s@, b) implies 1 + escaped_len(s@.take(b)) > k by {
                    lemma_escaped_len_prefix(s@, (j + 1) as nat, b as nat);
                }
                lemma_escaped_len_prefix(s@, (j + 1) as nat, len as nat);
                assert(s@.take(len as int) =~= s@);
            }
            return WasTruncated::Yes(i);
        }
        fmtlen = fmtlen + bl;
        j = j + 1;
    }
    proof {
        assert(s@.take(len as int) =~= s@);
    }
    if fmtlen < k {
        WasTruncated::No
    } else {
        WasTruncated::Yes(i)
    }
}

/// The cut of a Display string falls on a character boundary of valid UTF-8,
/// and no later boundary within `k` bytes exists.
pub proof fn lemma_display_cut_utf8(s: Seq<u8>, k: nat, i: nat)
    requires
        valid_utf8(s),
        is_display_cut(s, k, i),
    ensures
        utf8_char_boundary(s, i as int),
        forall|b: int| i < b <= k && b <= s.len() ==> !utf8_char_boundary(s, b),
{
    lemma_cut_is_char_boundary(s);
}

/// The cut of a Debug string falls on a character boundary of valid UTF-8,
/// and the string up to any later boundary would not fit.
pub proof fn lemma_debug_cut_utf8(s: Seq<u8>, k: nat, i: nat)
    requires
        valid_utf8(s),
        is_debug_cut(s, k, i),
    ensures
        utf8_char_boundary(s, i as int),
        forall|b: int| i < b <= s.len() && utf8_char_boundary(s, b) ==> 1 + escaped_len(s.take(b)) > k,
{
    lemma_cut_is_char_boundary(s);
}

/// On valid UTF-8, the cuts that split no character are the character
/// boundaries.
pub proof fn lemma_cut_is_char_boundary(s: Seq<u8>)
    requires
        valid_utf8(s),
    ensures
        forall|b: int| 0 <= b <= s.len() ==> (is_cut(s, b) <==> utf8_char_boundary(s, b)),
{
    is_char_boundary_start_end_of_seq(s);
    assert forall|b: int| 0 <= b <= s.len() implies (is_cut(s, b) <==> utf8_char_boundary(s, b)) by {
        if 0 < b < s.len() {
            is_char_boundary_iff_not_is_continuation_byte(s, b);
        }
    }
}

} // verus!
