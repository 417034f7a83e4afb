use vstd::prelude::*;
use std::io::Write;

use crate::error::ErrM;
use crate::error::Error;

verus! {

/// A tag whose value exiftool printed as a binary-data placeholder: the
/// tool holds `size_bytes` bytes for it, to be fetched separately.
#[derive(Debug, Clone, PartialEq, Eq, Structural)]
pub struct BinaryDataField {
    pub size_bytes: usize,
}

#[verifier::external_type_specification]
#[verifier::external_body]
pub struct ExIoError(std::io::Error);

/// Name for the digits that the binary-data pattern captures in a
/// string, when it matches: a function of the string alone.
pub uninterp spec fn binary_size_capture(s: Seq<char>) -> Option<Seq<char>>;

/// Relies on regex::Regex::new and regex::Regex::captures: the fixed
/// pattern `\(Binary data (\d+) bytes, use -b option to extract\)` is a
/// valid expression, the search depends on the haystack alone, and a
/// match captures one or more digit characters.
#[verifier::external_body]
fn capture_binary_size(s: &str) -> (r: Option<Vec<char>>)
    ensures
        r is Some <==> binary_size_capture(s@) is Some,
        r is Some ==> Some(r->0@) == binary_size_capture(s@),
        r is Some ==> r->0@.len() >= 1,
{
    let re = regex::Regex::new(r"\(Binary data (\d+) bytes, use -b option to extract\)").unwrap();
    match re.captures(s) {
        Some(caps) => Some(caps[1].chars().collect()),
        None => None,
    }
}

/// Every character is a decimal digit.
pub open spec fn is_dec_digits(s: Seq<char>) -> bool {
    forall|i: int| 0 <= i < s.len() ==> '0' <= #[trigger] s[i] <= '9'
}

/// The number that a run of decimal digits denotes.
pub open spec fn dec_value(s: Seq<char>) -> int
    decreases s.len(),
{
    if s.len() == 0 {
        0
    } else {
        dec_value(s.drop_last()) * 10 + (s.last() as int - '0' as int)
    }
}

proof fn lemma_dec_value_nonneg(s: Seq<char>)
    requires
        is_dec_digits(s),
    ensures
        dec_value(s) >= 0,
    decreases s.len(),
{
    if s.len() > 0 {
        assert(is_dec_digits(s.drop_last())) by {
            assert forall|i: int| 0 <= i < s.drop_last().len() implies '0'
                <= #[trigger] s.drop_last()[i] <= '9' by {
                assert(s.drop_last()[i] == s[i]);
            }
        }
        lemma_dec_value_nonneg(s.drop_last());
    }
}

/// A longer run of digits never denotes a smaller number.
proof fn lemma_dec_value_prefix(s: Seq<char>, k: int)
    requires
        0 <= k <= s.len(),
        is_dec_digits(s),
    ensures
        dec_value(s.take(k)) <= dec_value(s),
    decreases s.len() - k,
{
    if k < s.len() {
        assert(is_dec_digits(s.take(k))) by {
            assert forall|i: int| 0 <= i < s.take(k).len() implies '0' <= #[trigger] s.take(k)[i]
                <= '9' by {
                assert(s.take(k)[i] == s[i]);
            }
        }
        lemma_dec_value_nonneg(s.take(k));
        assert(s.take(k + 1).drop_last() =~= s.take(k));
        assert(s.take(k + 1).last() == s[k]);
        assert(dec_value(s.take(k + 1)) == dec_value(s.take(k)) * 10 + (s[k] as int - '0' as int));
        lemma_dec_value_prefix(s, k + 1);
    } else {
        assert(s.take(k) =~= s);
    }
}

/// Parse a captured run of characters as a decimal byte count. Succeeds
/// exactly when the run is non-empty, every character is a digit, and
/// the denoted number fits in `usize`.
#[verifier::loop_isolation(false)]
pub fn parse_size(cap: &Vec<char>) -> (r: Option<usize>)
    ensures
        r is Some <==> (cap@.len() > 0 && is_dec_digits(cap@) && dec_value(cap@) <= usize::MAX),
        r is Some ==> r->0 == dec_value(cap@),
{
    if cap.len() == 0 {
        return None;
    }
    let mut acc: usize = 0;
    let mut i: usize = 0;
    while i < cap.len()
        invariant
            0 <= i <= cap@.len(),
            cap@.len() > 0,
            is_dec_digits(cap@.take(i as int)),
            acc == dec_value(cap@.take(i as int)),
        decreases cap@.len() - i,
    {
        let c = cap[i];
        if !('0' <= c && c <= '9') {
            proof {
                assert(!is_dec_digits(cap@));
            }
            return None;
        }
        let d: usize = (c as u32 - '0' as u32) as usize;
        proof {
            assert(d == c as int - '0' as int);
            assert(d <= 9);
            assert(cap@.take(i as int + 1).drop_last() =~= cap@.take(i as int));
            assert(cap@.take(i as int + 1).last() == cap@[i as int]);
            assert(is_dec_digits(cap@.take(i as int + 1))) by {
                assert forall|j: int| 0 <= j < i as int + 1 implies '0' <= #[trigger] cap@.take(
                    i as int + 1,
                )[j] <= '9' by {
                    if j < i as int {
                        assert(cap@.take(i as int + 1)[j] == cap@.take(i as int)[j]);
                    }
                }
            }
        }
        if acc > (usize::MAX - d) / 10 {
            proof {
                assert(acc * 10 + d > usize::MAX) by (nonlinear_arith)
                    requires
                        acc > (usize::MAX - d) / 10,
                        d <= 9,
                        (usize::MAX - d) / 10 * 10 + (usize::MAX - d) % 10 == usize::MAX - d,
                        0 <= (usize::MAX - d) % 10 < 10,
                ;
                assert(dec_value(cap@.take(i as int + 1)) == acc * 10 + d);
                if is_dec_digits(cap@) && dec_value(cap@) <= usize::MAX {
                    lemma_dec_value_prefix(cap@, i as int + 1);
                }
            }
            return None;
        }
        proof {
            assert(acc * 10 + d <= usize::MAX) by (nonlinear_arith)
                requires
                    acc <= (usize::MAX - d) / 10,
                    d <= 9,
                    (usize::MAX - d) / 10 * 10 <= usize::MAX - d,
            ;
        }
        acc = acc * 10 + d;
        i += 1;
    }
    proof {
        assert(cap@.take(cap@.len() as int) =~= cap@);
    }
    Some(acc)
}

/// Turn a capture of the binary-data pattern, if any, into a field. No
/// capture means no field; a capture that does not denote a size that
/// fits is a decode error.
pub fn binary_from_capture(cap: Option<Vec<char>>) -> (r: Result<Option<BinaryDataField>, Error>)
    ensures
        cap is None ==> r == Ok::<Option<BinaryDataField>, Error>(None::<BinaryDataField>),
        cap is Some && cap->0@.len() > 0 && is_dec_digits(cap->0@) && dec_value(cap->0@)
            <= usize::MAX ==> r is Ok && r->Ok_0 is Some && r->Ok_0->0.size_bytes == dec_value(
            cap->0@,
        ),
        cap is Some && !(cap->0@.len() > 0 && is_dec_digits(cap->0@) && dec_value(cap->0@)
            <= usize::MAX) ==> r is Err && r->Err_0@ is Decode,
{
    match cap {
        Some(c) => match parse_size(&c) {
            Some(n) => Ok(Some(BinaryDataField { size_bytes: n })),
            None => Err(Error::decode_error("size_bytes", "captured size is not a number that fits")),
        },
        None => Ok(None),
    }
}

/// Decode exiftool's binary-data placeholder. When the pattern occurs
/// in `s`, the captured size becomes a `BinaryDataField`; when it does
/// not, there is no field and no error.
pub fn binary(s: &str) -> (r: Result<Option<BinaryDataField>, Error>)
    ensures
        binary_size_capture(s@) is None ==> r == Ok::<Option<BinaryDataField>, Error>(
            None::<BinaryDataField>,
        ),
        binary_size_capture(s@) is Some && is_dec_digits(binary_size_capture(s@)->0)
            && binary_size_capture(s@)->0.len() > 0 && dec_value(binary_size_capture(s@)->0)
            <= usize::MAX ==> r is Ok && r->Ok_0 is Some && r->Ok_0->0.size_bytes == dec_value(
            binary_size_capture(s@)->0,
        ),
        binary_size_capture(s@) is Some && !(binary_size_capture(s@)->0.len() > 0 && is_dec_digits(
            binary_size_capture(s@)->0,
        ) && dec_value(binary_size_capture(s@)->0) <= usize::MAX) ==> r is Err && r->Err_0@
            is Decode,
{
    binary_from_capture(capture_binary_size(s))
}

/// Relies on std::io::stdout and the writeln macro for the note that an
/// extraction prints.
#[verifier::external_body]
fn note_extract(size_bytes: usize, field_name: &str) {
    let mut out = std::io::stdout();
    let _ = writeln!(out, "[EXTRACT] bytes: {}, field_name: {}", size_bytes, field_name);
}

impl BinaryDataField {
    /// Fetch the field's bytes. This build prints a note of what would
    /// be fetched and hands back placeholder bytes.
    pub fn extract(&self, field_name: &str) -> (r: Result<Vec<u8>, std::io::Error>)
        ensures
            r is Ok && r->Ok_0@ == seq![1u8, 2u8, 3u8],
    {
        note_extract(self.size_bytes, field_name);
        let mut out: Vec<u8> = Vec::new();
        out.push(1);
        out.push(2);
        out.push(3);
        proof {
            assert(out@ =~= seq![1u8, 2u8, 3u8]);
        }
        Ok(out)
    }
}

} // verus!
