//! A string of bounded capacity, for precomputed messages.
use vstd::prelude::*;
use vstd::string::StringSliceAdditionalSpecFns;

use vstd::utf8::valid_utf8;

use crate::concat_panic::make_panic_string;
use crate::fmt::FmtArg;
use crate::panic_val::{PanicVal, StrFmt};
use crate::render::{args_wf, render_args};
use crate::utils::utf8_str;

verus! {

/// The bytes of a sequence of strings, one after the other.
pub open spec fn concat_bytes(strings: Seq<&str>) -> Seq<u8>
    decreases strings.len(),
{
    if strings.len() == 0 {
        Seq::empty()
    } else {
        concat_bytes(strings.drop_last()) + strings.last().spec_bytes()
    }
}

/// A string of at most `CAP` bytes.
pub struct ArrayString<const CAP: usize> {
    bytes: Vec<u8>,
}

impl<const CAP: usize> View for ArrayString<CAP> {
    type V = Seq<u8>;

    closed spec fn view(&self) -> Seq<u8> {
        self.bytes@
    }
}

/// The total length of the strings.
pub fn add_up_lengths(strings: &[&str]) -> (r: usize)
    requires
        concat_bytes(strings@).len() <= usize::MAX,
    ensures
        r == concat_bytes(strings@).len(),
{
    let mut len: usize = 0;
    let mut i: usize = 0;
    while i < strings.len()
        invariant
            i <= strings@.len(),
            len == concat_bytes(strings@.take(i as int)).len(),
            concat_bytes(strings@).len() <= usize::MAX,
        decreases strings@.len() - i,
    {
        proof {
            assert(strings@.take(i + 1).drop_last() =~= strings@.take(i as int));
            lemma_concat_prefix_len(strings@, (i + 1) as nat);
        }
        len = len + strings[i].len();
        i = i + 1;
    }
    assert(strings@.take(i as int) =~= strings@);
    len
}

proof fn lemma_concat_prefix_len(strings: Seq<&str>, n: nat)
    requires
        n <= strings.len(),
    ensures
        concat_bytes(strings.take(n as int)).len() <= concat_bytes(strings).len(),
    decreases strings.len() - n,
{
    if n < strings.len() {
        lemma_concat_prefix_len(strings, n + 1);
        assert(strings.take((n + 1) as int).drop_last() =~= strings.take(n as int));
    } else {
        assert(strings.take(n as int) =~= strings);
    }
}

impl<const CAP: usize> ArrayString<CAP> {
    /// The string never holds more than `CAP` bytes.
    #[verifier::type_invariant]
    spec fn fits(self) -> bool {
        self.bytes@.len() <= CAP
    }

    pub(crate) fn from_vec(bytes: Vec<u8>) -> (r: ArrayString<CAP>)
        requires
            bytes@.len() <= CAP,
        ensures
            r@ == bytes@,
    {
        ArrayString { bytes }
    }

    /// A string holding `string`, which must fit in `CAP` bytes.
    pub fn new(string: &str) -> (r: ArrayString<CAP>)
        requires
            string.spec_bytes().len() <= CAP,
        ensures
            r@ == string.spec_bytes(),
    {
        let bytes = vstd::slice::slice_to_vec(string.as_bytes());
        ArrayString { bytes }
    }

    /// A string holding the concatenation of `strings`, which must fit in
    /// `CAP` bytes.
    pub fn concat(strings: &[&str]) -> (r: ArrayString<CAP>)
        requires
            concat_bytes(strings@).len() <= CAP,
        ensures
            r@ == concat_bytes(strings@),
    {
        let mut bytes: Vec<u8> = Vec::new();
        let mut i: usize = 0;
        assert(strings@.take(0) =~= Seq::<&str>::empty());
        while i < strings.len()
            invariant
                i <= strings@.len(),
                bytes@ == concat_bytes(strings@.take(i as int)),
            decreases strings@.len() - i,
        {
            let s: &str = strings[i];
            let b = s.as_bytes();
            let mut j: usize = 0;
            let ghost start = bytes@;
            while j < b.len()
                invariant
                    j <= b@.len(),
                    bytes@ == start + b@.take(j as int),
                decreases b@.len() - j,
            {
                bytes.push(b[j]);
                j = j + 1;
                assert(bytes@ =~= start + b@.take(j as int));
            }
            proof {
                assert(b@.take(j as int) =~= b@);
                assert(strings@.take(i + 1).drop_last() =~= strings@.take(i as int));
            }
            i = i + 1;
        }
        assert(strings@.take(i as int) =~= strings@);
        ArrayString { bytes }
    }

    /// The rendering of `args`, when it fits in `CAP` bytes whole.
    pub fn concat_panicvals(args: &[&[PanicVal]]) -> (r: Option<ArrayString<CAP>>)
        requires
            args_wf(args@),
        ensures
            render_args(args@, CAP as nat).1 ==> r is None,
            !render_args(args@, CAP as nat).1 ==> r is Some && r->Some_0@ == render_args(args@, CAP as nat).0,
    {
        match make_panic_string::<CAP>(args) {
            Ok(x) => Some(x),
            Err(_) => None,
        }
    }

    /// The rendering of one group of values, when it fits in `CAP` bytes
    /// whole.
    pub fn from_panicvals(args: &[PanicVal]) -> (r: Option<ArrayString<CAP>>)
        requires
            args_wf(seq![args]),
        ensures
            render_args(seq![args], CAP as nat).1 ==> r is None,
            !render_args(seq![args], CAP as nat).1 ==> r is Some && r->Some_0@ == render_args(seq![args], CAP as nat).0,
    {
        let groups: [&[PanicVal]; 1] = [args];
        let r = ArrayString::concat_panicvals(groups.as_slice());
        assert(groups@ =~= seq![args]);
        r
    }

    /// The length of the string in bytes.
    pub fn len(&self) -> (r: usize)
        ensures
            r == self@.len(),
            r <= CAP,
    {
        proof { use_type_invariant(self); }
        self.bytes.len()
    }

    /// The bytes of the string.
    pub fn as_bytes(&self) -> (r: &[u8])
        ensures
            r@ == self@,
    {
        self.bytes.as_slice()
    }

    /// The string; its bytes are valid UTF-8 whenever every string it was
    /// built from was.
    pub fn to_str(&self) -> (r: &str)
        requires
            valid_utf8(self@),
        ensures
            r.spec_bytes() == self@,
    {
        match utf8_str(self.bytes.as_slice()) {
            Some(s) => s,
            None => "",
        }
    }

    /// A value that renders this string as `f` says.
    pub fn to_panicval(&self, f: FmtArg) -> (r: PanicVal)
        ensures
            r.is_str(StrFmt::new_spec(f), self@),
            r.wf(),
    {
        PanicVal::from_bytes(vstd::slice::slice_to_vec(self.bytes.as_slice()), StrFmt::new(f))
    }

    /// The single value that renders this string as `f` says.
    pub fn to_panicvals(&self, f: FmtArg) -> (r: [PanicVal; 1])
        ensures
            r[0].is_str(StrFmt::new_spec(f), self@),
            r[0].wf(),
    {
        [self.to_panicval(f)]
    }
}

} // verus!
