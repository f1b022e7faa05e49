//! `iconv.h`: every converter is the identity (bytes are copied as they
//! are).

use vstd::prelude::*;
use crate::environment::{Environment, others_unchanged};
use crate::libc::errno::{E2BIG, EINVAL};
use crate::libc::string::copy_steps;
use crate::mem::{spec_read_u32, put_u32};

verus! {

/// A conversion descriptor; null is invalid.
pub type iconv_t = u32;

/// The descriptor `iconv_open` hands out.
pub const IDENTITY_CONVERTER: iconv_t = 1;

/// `iconv_open`: returns the identity converter, whatever the encodings.
pub fn iconv_open(env: &mut Environment, tocode: u32, fromcode: u32) -> (r: iconv_t)
    ensures
        *final(env) == *old(env),
        r == IDENTITY_CONVERTER,
{
    IDENTITY_CONVERTER
}

/// What `iconv` does, as a function of memory and the four values its
/// pointer arguments point to: the number of bytes it copies.
pub open spec fn iconv_count(in_left: int, out_left: int) -> int {
    if in_left < out_left { in_left } else { out_left }
}

/// `iconv`: copies bytes one at a time from `*inbuf` to `*outbuf` while
/// both `*inbytesleft` and `*outbytesleft` are non-zero. If input is left
/// over, `errno` becomes `E2BIG` and -1 is returned with the four values
/// unchanged; otherwise they are advanced and 0 is returned. A null
/// descriptor gives `EINVAL` and -1.
pub fn iconv(env: &mut Environment, cd: iconv_t, inbuf: u32, inbytesleft: u32, outbuf: u32, outbytesleft: u32) -> (r: u32)
    requires
        old(env).wf(),
        cd != 0 ==> {
            let m = old(env).mem@;
            &&& inbuf + 4 <= m.len()
            &&& outbuf + 4 <= m.len()
            &&& inbytesleft + 4 <= m.len()
            &&& outbytesleft + 4 <= m.len()
            &&& ({
                let in_ptr = spec_read_u32(m, inbuf as int);
                let out_ptr = spec_read_u32(m, outbuf as int);
                let n = iconv_count(spec_read_u32(m, inbytesleft as int), spec_read_u32(m, outbytesleft as int));
                in_ptr + n <= m.len() && out_ptr + n <= m.len()
            })
        },
    ensures
        final(env).wf(),
        final(env).mem.heap_top() == old(env).mem.heap_top(),
        final(env).libc_state == old(env).libc_state,
        others_unchanged(old(env), final(env)),
        cd == 0 ==> r == u32::MAX && final(env).errno == EINVAL && final(env).mem == old(env).mem,
        cd != 0 ==> {
            let m = old(env).mem@;
            let in_ptr = spec_read_u32(m, inbuf as int);
            let out_ptr = spec_read_u32(m, outbuf as int);
            let in_left = spec_read_u32(m, inbytesleft as int);
            let out_left = spec_read_u32(m, outbytesleft as int);
            let n = iconv_count(in_left, out_left);
            let copied = copy_steps(m, out_ptr, in_ptr, n as nat);
            if in_left > out_left {
                &&& r == u32::MAX
                &&& final(env).errno == E2BIG
                &&& final(env).mem@ == copied
            } else {
                &&& r == 0
                &&& final(env).errno == old(env).errno
                &&& final(env).mem@ == put_u32(put_u32(put_u32(put_u32(copied,
                        inbuf as int, in_ptr + n), outbuf as int, out_ptr + n),
                        inbytesleft as int, 0), outbytesleft as int, out_left - n)
            }
        },
{
    if cd == 0 {
        env.errno = EINVAL;
        return u32::MAX;
    }
    let ghost m = env.mem@;
    proof { env.mem.lemma_wf(); }
    let in0 = env.mem.read_u32(inbuf);
    let out0 = env.mem.read_u32(outbuf);
    let mut in_ptr = in0;
    let mut out_ptr = out0;
    let mut in_left = env.mem.read_u32(inbytesleft);
    let mut out_left = env.mem.read_u32(outbytesleft);
    let ghost in_left0 = in_left;
    let ghost out_left0 = out_left;
    let ghost n = iconv_count(in_left0 as int, out_left0 as int);
    let mut converted: u32 = 0;
    while in_left > 0 && out_left > 0
        invariant
            env.wf(),
            env.mem.heap_top() == old(env).mem.heap_top(),
            env.libc_state == old(env).libc_state,
            others_unchanged(old(env), env),
            env.errno == old(env).errno,
            m == old(env).mem@,
            m.len() < 0xffff_ffff,
            in0 + n <= m.len(),
            out0 + n <= m.len(),
            n == iconv_count(in_left0 as int, out_left0 as int),
            converted <= n,
            in_ptr == in0 + converted,
            out_ptr == out0 + converted,
            in_left == in_left0 - converted,
            out_left == out_left0 - converted,
            env.mem@ == copy_steps(m, out0 as int, in0 as int, converted as nat),
        decreases in_left,
    {
        proof { crate::libc::string::lemma_copy_steps_len(m, out0 as int, in0 as int, converted as nat); }
        let byte = env.mem.read_u8(in_ptr);
        env.mem.write_u8(out_ptr, byte);
        in_ptr = in_ptr + 1;
        out_ptr = out_ptr + 1;
        in_left = in_left - 1;
        out_left = out_left - 1;
        converted = converted + 1;
    }
    proof { crate::libc::string::lemma_copy_steps_len(m, out0 as int, in0 as int, converted as nat); }
    if in_left > 0 {
        env.errno = E2BIG;
        return u32::MAX;
    }
    env.mem.write_u32(inbuf, in_ptr);
    env.mem.write_u32(outbuf, out_ptr);
    env.mem.write_u32(inbytesleft, in_left);
    env.mem.write_u32(outbytesleft, out_left);
    0
}

/// `iconv_close`: nothing to release.
pub fn iconv_close(env: &mut Environment, cd: iconv_t) -> (r: i32)
    ensures
        *final(env) == *old(env),
        r == 0,
{
    0
}

} // verus!
