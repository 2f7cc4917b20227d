//! Payload preparation: a short sample message is inflated towards a target
//! datagram size by repeating it whole, so that every datagram carries a
//! comparable weight of bytes.

use vstd::prelude::*;
use vstd::string::{StringExecFns, StringSliceAdditionalSpecFns};
use crate::math::{ceil_div, lemma_ceil_div};

verus! {

/// `s` concatenated with itself `k` times.
pub open spec fn repeat_chars(s: Seq<char>, k: nat) -> Seq<char>
    decreases k,
{
    if k == 0 {
        Seq::empty()
    } else {
        repeat_chars(s, (k - 1) as nat) + s
    }
}

/// Inflates `msg` to at least `size` bytes by repeating it whole: the
/// least number of copies whose bytes reach `size`. A message already
/// `size` bytes long or longer is handed back as it is.
pub fn bloat_message(msg: &str, size: usize) -> (r: String)
    requires
        msg.spec_bytes().len() >= 1,
        size + msg.spec_bytes().len() <= usize::MAX,
    ensures
        size > msg.spec_bytes().len() ==> r@ == repeat_chars(
            msg@,
            ceil_div(size as nat, msg.spec_bytes().len() as nat),
        ),
        size <= msg.spec_bytes().len() ==> r@ == msg@,
{
    let l = msg.len();
    if size > l {
        proof {
            lemma_ceil_div(size as nat, l as nat);
        }
        let times = (size + l - 1) / l;
        let mut out = String::new();
        let mut c: usize = 0;
        proof {
            assert(out@ =~= repeat_chars(msg@, 0));
        }
        while c < times
            invariant
                c <= times,
                out@ == repeat_chars(msg@, c as nat),
            decreases times - c,
        {
            out.append(msg);
            c = c + 1;
        }
        out
    } else {
        msg.to_owned()
    }
}

} // verus!
