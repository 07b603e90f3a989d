//! The two-phase probe/fetch protocol for variable-length kernel queries,
//! and the decoding of the command line it fetches.
//!
//! A variable-length query is issued twice: once with an empty destination to
//! learn the needed size, then again with a buffer of that size. Some probes
//! report success with a zero size; a fixed generous fallback stands in for
//! the size then. The fetched buffer carries a length-prefixed wide-character
//! descriptor: exactly the reported number of characters is decoded, never
//! the whole buffer.

use vstd::prelude::*;
use crate::error::Error;
use crate::status::nt_success;
use crate::wide::utf16_lossy;

verus! {

/// The generous fallback, in wide-character units, used when the size probe
/// reports zero.
pub const FALLBACK_UNITS: u32 = 65536;

/// The buffer size to allocate after the probe phase: the reported size, or
/// the fallback when the probe reported zero.
pub fn probe_buffer_size(reported: u32) -> (r: u32)
    ensures
        reported != 0 ==> r == reported,
        reported == 0 ==> r == FALLBACK_UNITS,
        r > 0,
{
    if reported == 0 {
        FALLBACK_UNITS
    } else {
        reported
    }
}

/// Folds the fetch phase of the command-line query into its caller-visible
/// result.
///
/// On a non-success status the converted host error code is surfaced; on
/// success the result holds exactly one string, the raw command-line text:
/// the reported number of bytes, halved into wide units, decoded lossily.
/// The caller has checked that the reported run fits the buffer it fetched.
pub fn cmdline_from_query(
    status: i32,
    host_code: u32,
    units: &Vec<u16>,
    length_bytes: u16,
) -> (r: Result<Vec<String>, Error>)
    requires
        nt_success(status) ==> length_bytes as int / 2 <= units@.len(),
    ensures
        !nt_success(status) ==> r == Err::<Vec<String>, Error>(Error::Os(host_code as i64)),
        nt_success(status) ==> (r matches Ok(v) && v@.len() == 1 && v@[0]@ == utf16_lossy(
            units@.take(length_bytes as int / 2),
        )),
{
    if status != 0 {
        return Err(Error::Os(host_code as i64));
    }
    let run: usize = (length_bytes / 2) as usize;
    let text = crate::wide::decode_utf16_prefix_lossy(units, run);
    let mut out: Vec<String> = Vec::new();
    out.push(text);
    Ok(out)
}

/// A raw command-line byte region with its trailing NUL terminators dropped.
pub open spec fn trimmed_nul_tail(s: Seq<u8>) -> Seq<u8>
    decreases s.len(),
{
    if s.len() > 0 && s.last() == 0 {
        trimmed_nul_tail(s.drop_last())
    } else {
        s
    }
}

/// The raw command line as one byte run: the trailing NUL terminators
/// dropped, every remaining NUL separator shown as a space.
pub open spec fn rendered_cmdline(s: Seq<u8>) -> Seq<u8> {
    trimmed_nul_tail(s).map_values(
        |b: u8|
            if b == 0 {
                32u8
            } else {
                b
            },
    )
}

/// Renders raw command-line bytes, as a kernel that separates arguments by
/// NUL bytes stores them, into the single undivided text this layer
/// reports: the trailing NUL run goes, interior NUL separators become
/// spaces, and nothing is tokenized.
pub fn render_cmdline_bytes(bytes: &Vec<u8>) -> (r: Vec<u8>)
    ensures
        r@ == rendered_cmdline(bytes@),
{
    let mut end: usize = bytes.len();
    proof {
        assert(bytes@.take(bytes@.len() as int) =~= bytes@);
    }
    while end > 0 && bytes[end - 1] == 0
        invariant
            end <= bytes@.len(),
            trimmed_nul_tail(bytes@) == trimmed_nul_tail(bytes@.take(end as int)),
        decreases end,
    {
        proof {
            assert(bytes@.take(end as int).last() == bytes@[end - 1]);
            assert(bytes@.take(end as int).drop_last() =~= bytes@.take(end - 1));
        }
        end = end - 1;
    }
    proof {
        if end > 0 {
            assert(bytes@.take(end as int).last() == bytes@[end - 1]);
        }
        assert(trimmed_nul_tail(bytes@.take(end as int)) == bytes@.take(end as int));
    }
    let mut out: Vec<u8> = Vec::new();
    let mut i: usize = 0;
    while i < end
        invariant
            i <= end,
            end <= bytes@.len(),
            trimmed_nul_tail(bytes@) == bytes@.take(end as int),
            out@.len() == i,
            forall|k: int|
                0 <= k < i ==> out@[k] == (if bytes@[k] == 0 {
                    32u8
                } else {
                    bytes@[k]
                }),
        decreases end - i,
    {
        let b = bytes[i];
        if b == 0 {
            out.push(32);
        } else {
            out.push(b);
        }
        i = i + 1;
    }
    proof {
        assert(out@ =~= rendered_cmdline(bytes@));
    }
    out
}

} // verus!
