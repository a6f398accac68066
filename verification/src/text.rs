use vstd::prelude::*;

verus! {

/// Byte `k` of `b` exists and is a continuation byte (0x80 to 0xBF).
pub open spec fn continuation_at(b: Seq<u8>, k: int) -> bool {
    0 <= k < b.len() && 0x80 <= b[k] <= 0xBF
}

/// Byte `k` of `b` exists and lies in `lo..=hi`.
pub open spec fn byte_in(b: Seq<u8>, k: int, lo: u8, hi: u8) -> bool {
    0 <= k < b.len() && lo <= b[k] <= hi
}

/// The length of the well-formed UTF-8 sequence that starts at `i`, or zero
/// when none starts there (the well-formed byte sequences of the Unicode
/// standard: no overlong forms, no surrogates, nothing above U+10FFFF).
pub open spec fn utf8_sequence_len(b: Seq<u8>, i: int) -> int {
    let c = b[i];
    if c <= 0x7F {
        1
    } else if 0xC2 <= c <= 0xDF && continuation_at(b, i + 1) {
        2
    } else if c == 0xE0 && byte_in(b, i + 1, 0xA0, 0xBF) && continuation_at(b, i + 2) {
        3
    } else if (0xE1 <= c <= 0xEC || 0xEE <= c <= 0xEF) && continuation_at(b, i + 1) && continuation_at(b, i + 2) {
        3
    } else if c == 0xED && byte_in(b, i + 1, 0x80, 0x9F) && continuation_at(b, i + 2) {
        3
    } else if c == 0xF0 && byte_in(b, i + 1, 0x90, 0xBF) && continuation_at(b, i + 2) && continuation_at(b, i + 3) {
        4
    } else if 0xF1 <= c <= 0xF3 && continuation_at(b, i + 1) && continuation_at(b, i + 2) && continuation_at(b, i + 3) {
        4
    } else if c == 0xF4 && byte_in(b, i + 1, 0x80, 0x8F) && continuation_at(b, i + 2) && continuation_at(b, i + 3) {
        4
    } else {
        0
    }
}

/// The bytes from `i` on are a run of well-formed UTF-8 sequences.
pub open spec fn utf8_from(b: Seq<u8>, i: int) -> bool
    decreases b.len() - i,
{
    if i < 0 || i >= b.len() {
        true
    } else {
        let n = utf8_sequence_len(b, i);
        n > 0 && utf8_from(b, i + n)
    }
}

/// The bytes are well-formed UTF-8.
pub open spec fn utf8_well_formed(b: Seq<u8>) -> bool {
    utf8_from(b, 0)
}

/// Calls `core::str::from_utf8` and reports whether it accepted the bytes.
/// Claimed of it: it accepts exactly the well-formed UTF-8 byte sequences,
/// which is what its documentation promises (it returns an error when the
/// slice is not UTF-8).
#[verifier::external_body]
pub(crate) fn str_from_utf8_is_ok(bytes: &[u8]) -> (r: bool)
    ensures
        r == utf8_well_formed(bytes@),
{
    core::str::from_utf8(bytes).is_ok()
}

/// Bytes that are all ASCII (below 0x80) are well-formed UTF-8.
pub proof fn lemma_ascii_is_utf8(b: Seq<u8>, i: int)
    requires
        0 <= i,
        forall|k: int| 0 <= k < b.len() ==> #[trigger] b[k] < 0x80,
    ensures
        utf8_from(b, i),
    decreases b.len() - i,
{
    if i < b.len() {
        lemma_ascii_is_utf8(b, i + 1);
    }
}

} // verus!
