//! Building a message from groups of values: with escalating capacity, at
//! an exact capacity, or only its length.
use vstd::prelude::*;

use vstd::string::StringSliceAdditionalSpecFns;
use vstd::utf8::valid_utf8;

use crate::array_string::ArrayString;
use crate::panic_val::PanicVal;
use crate::render::{args_wf, render_args, write_args, lemma_larger_capacity};
use crate::utils::utf8_str;

verus! {

/// The rendering did not fit in the capacity asked for.
#[derive(Debug, Copy, Clone, PartialEq, Eq, Structural)]
pub struct NotEnoughSpace;

/// The maximum length of a message, in bytes, after which it is truncated.
pub const MAX_PANIC_MSG_LEN: usize = 32768;

/// The first capacity tried for a message.
pub const FIRST_CAPACITY: usize = 1024;

/// The second capacity tried for a message.
pub const SECOND_CAPACITY: usize = 6144;

/// The bytes of a rendering made for inspection, with the capacity of the
/// buffer that it was made in.
pub struct TestString<const LEN: usize> {
    bytes: Vec<u8>,
}

impl<const LEN: usize> View for TestString<LEN> {
    type V = Seq<u8>;

    closed spec fn view(&self) -> Seq<u8> {
        self.bytes@
    }
}

impl<const LEN: usize> TestString<LEN> {
    /// The rendered bytes.
    pub fn get(&self) -> (r: &[u8])
        ensures
            r@ == self@,
    {
        self.bytes.as_slice()
    }

    /// The rendered bytes as a string; they are valid UTF-8 whenever every
    /// string rendered was.
    pub fn as_str(&self) -> (r: &str)
        requires
            valid_utf8(self@),
        ensures
            r.spec_bytes() == self@,
    {
        match utf8_str(self.bytes.as_slice()) {
            Some(s) => s,
            None => "",
        }
    }
}

/// Renders `args` into `capacity` bytes of a buffer of `LEN` bytes. When
/// something has to be cut and `capacity < max_capacity` this is
/// `NotEnoughSpace`; at `max_capacity` the cut rendering is the result.
pub fn format_panic_message<const LEN: usize>(
    args: &[&[PanicVal]],
    capacity: usize,
    max_capacity: usize,
) -> (r: Result<TestString<LEN>, NotEnoughSpace>)
    requires
        args_wf(args@),
        capacity <= LEN,
    ensures
        render_args(args@, capacity as nat).1 && capacity < max_capacity ==> r is Err,
        !(render_args(args@, capacity as nat).1 && capacity < max_capacity) ==> r is Ok
            && r->Ok_0@ == render_args(args@, capacity as nat).0,
{
    let (bytes, truncated) = write_args(args, capacity);
    if truncated && capacity < max_capacity {
        Err(NotEnoughSpace)
    } else {
        Ok(TestString { bytes })
    }
}

/// Renders `args` into exactly `LEN` bytes of room; `NotEnoughSpace` when
/// anything would have to be cut.
pub fn make_panic_string<const LEN: usize>(args: &[&[PanicVal]]) -> (r: Result<ArrayString<LEN>, NotEnoughSpace>)
    requires
        args_wf(args@),
    ensures
        render_args(args@, LEN as nat).1 ==> r is Err,
        !render_args(args@, LEN as nat).1 ==> r is Ok && r->Ok_0@ == render_args(args@, LEN as nat).0,
{
    let (bytes, truncated) = write_args(args, LEN);
    if truncated {
        Err(NotEnoughSpace)
    } else {
        Ok(ArrayString::from_vec(bytes))
    }
}

/// Renders `args` into exactly `LEN` bytes of room, for arguments known to
/// fit.
pub fn make_panic_string_unwrapped<const LEN: usize>(args: &[&[PanicVal]]) -> (r: ArrayString<LEN>)
    requires
        args_wf(args@),
        !render_args(args@, LEN as nat).1,
    ensures
        r@ == render_args(args@, LEN as nat).0,
{
    let (bytes, _) = write_args(args, LEN);
    ArrayString::from_vec(bytes)
}

/// The length of the rendering of `args`, or `usize::MAX` when it does not
/// fit in `usize::MAX - 1` bytes.
pub fn compute_length(args: &[&[PanicVal]]) -> (r: usize)
    requires
        args_wf(args@),
    ensures
        r == if render_args(args@, (usize::MAX - 1) as nat).1 {
            usize::MAX as nat
        } else {
            render_args(args@, (usize::MAX - 1) as nat).0.len()
        },
{
    let (bytes, truncated) = write_args(args, usize::MAX - 1);
    if truncated {
        usize::MAX
    } else {
        bytes.len()
    }
}

/// The message for `args`: the rendering at the first of the capacities
/// 1024, 6144 and `MAX_PANIC_MSG_LEN` at which nothing is cut, or the cut
/// rendering at `MAX_PANIC_MSG_LEN`.
pub open spec fn panic_message_spec(args: Seq<&[PanicVal]>) -> Seq<u8> {
    if !render_args(args, FIRST_CAPACITY as nat).1 {
        render_args(args, FIRST_CAPACITY as nat).0
    } else if !render_args(args, SECOND_CAPACITY as nat).1 {
        render_args(args, SECOND_CAPACITY as nat).0
    } else {
        render_args(args, MAX_PANIC_MSG_LEN as nat).0
    }
}

/// Builds the message for `args`, trying growing capacities, and accepting
/// a truncated message at the largest.
pub fn panic_message(args: &[&[PanicVal]]) -> (r: Vec<u8>)
    requires
        args_wf(args@),
    ensures
        r@ == panic_message_spec(args@),
        r@.len() <= MAX_PANIC_MSG_LEN,
{
    let (bytes, truncated) = write_args(args, FIRST_CAPACITY);
    if !truncated {
        return bytes;
    }
    let (bytes, truncated) = write_args(args, SECOND_CAPACITY);
    if !truncated {
        return bytes;
    }
    let (bytes, _) = write_args(args, MAX_PANIC_MSG_LEN);
    bytes
}

/// A message that fits a capacity whole is the message at every larger
/// capacity, and the escalating message is then that rendering.
pub proof fn lemma_message_stable(args: Seq<&[PanicVal]>, c1: nat, c2: nat)
    requires
        c1 <= c2,
        !render_args(args, c1).1,
    ensures
        render_args(args, c2) == render_args(args, c1),
        c1 <= MAX_PANIC_MSG_LEN ==> panic_message_spec(args) == render_args(args, c1).0,
{
    lemma_larger_capacity(args, c1, c2);
    if c1 <= MAX_PANIC_MSG_LEN {
        lemma_larger_capacity(args, c1, MAX_PANIC_MSG_LEN as nat);
        if c1 <= FIRST_CAPACITY {
            lemma_larger_capacity(args, c1, FIRST_CAPACITY as nat);
        } else if !render_args(args, FIRST_CAPACITY as nat).1 {
            lemma_larger_capacity(args, FIRST_CAPACITY as nat, c1);
        }
        if c1 <= SECOND_CAPACITY {
            lemma_larger_capacity(args, c1, SECOND_CAPACITY as nat);
        } else if !render_args(args, SECOND_CAPACITY as nat).1 {
            lemma_larger_capacity(args, SECOND_CAPACITY as nat, c1);
        }
    }
}

} // verus!
