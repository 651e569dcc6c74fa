//! The ACPI MSDM (Microsoft Data Management) table and its parser.
use vstd::prelude::*;
use vstd::slice::slice_subrange;
use vstd::string::{StrSliceExecFns, StringExecFns};
use vstd::utf8::{decode_utf8, valid_utf8};

use crate::decode::{
    ascii_chars_of, lemma_ascii_bytes_decode, lossy_decode, str_from_utf8,
    string_from_utf8_lossy,
};
use crate::error::MsdmError;
use crate::format::{append_decimal, append_hex2, decimal, hex2};
use crate::key::{
    is_canonical_key, key_outcome, key_rejected_with, key_shape, law_key_format_exact,
    KeyFormatFault, ProductKey,
    PRODUCT_KEY_LENGTH,
};
use crate::text::{
    ascii_upper, chars_of, is_ascii_alnum, law_ascii_upper, lemma_key_text_unpadded,
    lemma_padded_text_unpadded, padded_text, padded_text_bounds,
};

verus! {

// ACPI standard header field offsets
pub const OFFSET_SIGNATURE: usize = 0;
pub const OFFSET_LENGTH: usize = 4;
pub const OFFSET_REVISION: usize = 8;
pub const OFFSET_CHECKSUM: usize = 9;
pub const OFFSET_OEM_ID: usize = 10;
pub const OFFSET_OEM_TABLE_ID: usize = 16;
pub const OFFSET_OEM_REVISION: usize = 24;
pub const OFFSET_CREATOR_ID: usize = 28;
pub const OFFSET_CREATOR_REVISION: usize = 32;

// Software Licensing Structure (SLS) field offsets
pub const OFFSET_SLS_VERSION: usize = 36;
pub const OFFSET_SLS_DATA_TYPE: usize = 44;
pub const OFFSET_SLS_DATA_LENGTH: usize = 52;
pub const OFFSET_PRODUCT_KEY: usize = 56;

// Field sizes
pub const OEM_ID_LENGTH: usize = 6;
pub const OEM_TABLE_ID_LENGTH: usize = 8;
pub const CREATOR_ID_LENGTH: usize = 4;

/// Minimum valid MSDM table size: ACPI header (36) + SLS fields (20) + key (29)
pub const MSDM_TABLE_MIN_LENGTH: usize = OFFSET_PRODUCT_KEY + PRODUCT_KEY_LENGTH;

/// Parsed MSDM (Microsoft Data Management) ACPI table.
#[derive(Debug)]
pub struct MsdmTable {
    pub length: u32,
    pub revision: u8,
    pub checksum: u8,
    pub oem_id: String,
    pub oem_table_id: String,
    pub oem_revision: u32,
    pub creator_id: String,
    pub creator_revision: u32,
    pub sls_version: u32,
    pub sls_data_type: u32,
    pub sls_data_length: u32,
    pub product_key: ProductKey,
    pub checksum_valid: bool,
}

/// The little-endian `u32` stored in `b[off..off + 4]`.
pub open spec fn le_u32_at(b: Seq<u8>, off: int) -> int {
    b[off] + 256 * b[off + 1] + 65536 * b[off + 2] + 16777216 * b[off + 3]
}

/// The sum of all bytes of `b`.
pub open spec fn byte_sum(b: Seq<u8>) -> nat
    decreases b.len(),
{
    if b.len() == 0 {
        0
    } else {
        byte_sum(b.drop_last()) + b.last() as nat
    }
}

/// The ACPI checksum rule: all bytes of the table sum to zero, modulo 256.
pub open spec fn checksum_ok(b: Seq<u8>) -> bool {
    byte_sum(b) % 256 == 0
}

/// Whether `b` starts with the signature `MSDM`.
pub open spec fn has_msdm_signature(b: Seq<u8>) -> bool {
    &&& b.len() >= 4
    &&& b[0] == 0x4D
    &&& b[1] == 0x53
    &&& b[2] == 0x44
    &&& b[3] == 0x4D
}

/// The bytes of the product key field.
pub open spec fn key_field(b: Seq<u8>) -> Seq<u8> {
    b.subrange(OFFSET_PRODUCT_KEY as int, MSDM_TABLE_MIN_LENGTH as int)
}

/// The text of the field `b[off..off + len]`: decoded with replacement of ill-formed
/// UTF-8, then trimmed of white space at both ends and of NUL padding at the end.
pub open spec fn text_field(b: Seq<u8>, off: int, len: int) -> Seq<char> {
    padded_text(lossy_decode(b.subrange(off, off + len)))
}

/// The header and SLS fields of `t` are those stored in `b`.
pub open spec fn header_matches(t: MsdmTable, b: Seq<u8>) -> bool {
    &&& t.length == le_u32_at(b, OFFSET_LENGTH as int)
    &&& t.revision == b[OFFSET_REVISION as int]
    &&& t.checksum == b[OFFSET_CHECKSUM as int]
    &&& t.oem_id@ == text_field(b, OFFSET_OEM_ID as int, OEM_ID_LENGTH as int)
    &&& t.oem_table_id@ == text_field(b, OFFSET_OEM_TABLE_ID as int, OEM_TABLE_ID_LENGTH as int)
    &&& t.oem_revision == le_u32_at(b, OFFSET_OEM_REVISION as int)
    &&& t.creator_id@ == text_field(b, OFFSET_CREATOR_ID as int, CREATOR_ID_LENGTH as int)
    &&& t.creator_revision == le_u32_at(b, OFFSET_CREATOR_REVISION as int)
    &&& t.sls_version == le_u32_at(b, OFFSET_SLS_VERSION as int)
    &&& t.sls_data_type == le_u32_at(b, OFFSET_SLS_DATA_TYPE as int)
    &&& t.sls_data_length == le_u32_at(b, OFFSET_SLS_DATA_LENGTH as int)
    &&& t.checksum_valid == checksum_ok(b)
}

/// Reads a little-endian u32 at `offset`.
pub fn read_u32_le(bytes: &[u8], offset: usize) -> (r: u32)
    requires
        offset + 4 <= bytes@.len(),
    ensures
        r == le_u32_at(bytes@, offset as int),
{
    let b0 = bytes[offset] as u32;
    let b1 = bytes[offset + 1] as u32;
    let b2 = bytes[offset + 2] as u32;
    let b3 = bytes[offset + 3] as u32;
    b0 + 256 * b1 + 65536 * b2 + 16777216 * b3
}

/// Extract a trimmed string from a byte slice.
pub fn read_ascii_lossy(bytes: &[u8], offset: usize, length: usize) -> (r: String)
    requires
        offset + length <= bytes@.len(),
    ensures
        r@ == text_field(bytes@, offset as int, length as int),
{
    let available = bytes.len();
    assert(offset + length <= available);
    let s = string_from_utf8_lossy(slice_subrange(bytes, offset, offset + length));
    let v = chars_of(s.as_str());
    let (a, c) = padded_text_bounds(&v);
    s.as_str().substring_char(a, c).to_owned()
}

/// The sum of all bytes, modulo 256.
pub fn checksum_of(bytes: &[u8]) -> (r: u8)
    ensures
        r == byte_sum(bytes@) % 256,
{
    let mut acc: u8 = 0;
    for i in 0..bytes.len()
        invariant
            acc == byte_sum(bytes@.take(i as int)) % 256,
    {
        proof {
            let t = bytes@.take(i + 1);
            assert(t.drop_last() =~= bytes@.take(i as int));
            assert(t.last() == bytes@[i as int]);
        }
        acc = acc.wrapping_add(bytes[i]);
    }
    assert(bytes@.take(bytes@.len() as int) =~= bytes@);
    acc
}

/// Whether `parse_table` accepts `b`: long enough, signed `MSDM`, and holding a
/// product key that is well-formed UTF-8 and passes validation.
pub open spec fn table_accepts(b: Seq<u8>) -> bool {
    &&& b.len() >= MSDM_TABLE_MIN_LENGTH
    &&& has_msdm_signature(b)
    &&& valid_utf8(key_field(b))
    &&& key_outcome(decode_utf8(key_field(b))) is Ok
}

/// `t` is the table that `parse_table` owes for `b`.
pub open spec fn table_parsed(b: Seq<u8>, t: MsdmTable) -> bool {
    &&& table_accepts(b)
    &&& key_outcome(decode_utf8(key_field(b))) == Ok::<Seq<char>, (Seq<char>, KeyFormatFault)>(
        t.product_key@,
    )
    &&& header_matches(t, b)
}

/// `e` is the error that `parse_table` owes for `b`: the first check that `b` fails,
/// in the order length, signature, UTF-8 of the key, format of the key.
pub open spec fn table_error(b: Seq<u8>, e: MsdmError) -> bool {
    if b.len() < MSDM_TABLE_MIN_LENGTH {
        e matches MsdmError::TableTooShort { expected, got } && expected == MSDM_TABLE_MIN_LENGTH
            && got == b.len()
    } else if !has_msdm_signature(b) {
        e matches MsdmError::InvalidSignature { got } && got@ == b.take(4)
    } else if !valid_utf8(key_field(b)) {
        e matches MsdmError::InvalidUtf8 { field } && field@ == "product key"@
    } else {
        key_rejected_with(decode_utf8(key_field(b)), e)
    }
}

/// Parse a raw MSDM ACPI table from bytes.
pub fn parse_table(bytes: &[u8]) -> (r: Result<MsdmTable, MsdmError>)
    ensures
        match r {
            Ok(t) => table_parsed(bytes@, t),
            Err(e) => !table_accepts(bytes@) && table_error(bytes@, e),
        },
        r matches Ok(t) ==> is_canonical_key(t.product_key@),
{
    if bytes.len() < MSDM_TABLE_MIN_LENGTH {
        return Err(MsdmError::TableTooShort { expected: MSDM_TABLE_MIN_LENGTH, got: bytes.len() });
    }
    let sig = [
        bytes[OFFSET_SIGNATURE],
        bytes[OFFSET_SIGNATURE + 1],
        bytes[OFFSET_SIGNATURE + 2],
        bytes[OFFSET_SIGNATURE + 3],
    ];
    if !(sig[0] == 0x4D && sig[1] == 0x53 && sig[2] == 0x44 && sig[3] == 0x4D) {
        assert(sig@ =~= bytes@.take(4));
        return Err(MsdmError::InvalidSignature { got: sig });
    }
    // Verify ACPI checksum: all bytes should sum to zero (mod 256)

    let checksum_valid = checksum_of(bytes) == 0;

    // Extract product key as strict UTF-8
    let key_bytes = slice_subrange(
        bytes,
        OFFSET_PRODUCT_KEY,
        OFFSET_PRODUCT_KEY + PRODUCT_KEY_LENGTH,
    );
    let key_str = match str_from_utf8(key_bytes) {
        Some(s) => s,
        None => {
            return Err(MsdmError::InvalidUtf8 { field: "product key" });
        },
    };
    proof {
        vstd::utf8::decode_utf8_encode_utf8(key_bytes@);
        vstd::utf8::encode_utf8_decode_utf8(key_str@);
    }
    assert(key_str@ == decode_utf8(key_field(bytes@)));
    let product_key = match ProductKey::new(key_str) {
        Ok(k) => k,
        Err(e) => {
            return Err(e);
        },
    };
    Ok(
        MsdmTable {
            length: read_u32_le(bytes, OFFSET_LENGTH),
            revision: bytes[OFFSET_REVISION],
            checksum: bytes[OFFSET_CHECKSUM],
            oem_id: read_ascii_lossy(bytes, OFFSET_OEM_ID, OEM_ID_LENGTH),
            oem_table_id: read_ascii_lossy(bytes, OFFSET_OEM_TABLE_ID, OEM_TABLE_ID_LENGTH),
            oem_revision: read_u32_le(bytes, OFFSET_OEM_REVISION),
            creator_id: read_ascii_lossy(bytes, OFFSET_CREATOR_ID, CREATOR_ID_LENGTH),
            creator_revision: read_u32_le(bytes, OFFSET_CREATOR_REVISION),
            sls_version: read_u32_le(bytes, OFFSET_SLS_VERSION),
            sls_data_type: read_u32_le(bytes, OFFSET_SLS_DATA_TYPE),
            sls_data_length: read_u32_le(bytes, OFFSET_SLS_DATA_LENGTH),
            product_key,
            checksum_valid,
        },
    )
}


/// Changing one byte to `v` changes the sum by `v` less the old byte.
pub proof fn lemma_byte_sum_update(b: Seq<u8>, i: int, v: u8)
    requires
        0 <= i < b.len(),
    ensures
        byte_sum(b.update(i, v)) == byte_sum(b) - b[i] + v,
    decreases b.len(),
{
    let c = b.update(i, v);
    if i == b.len() - 1 {
        assert(c.drop_last() =~= b.drop_last());
    } else {
        assert(c.drop_last() =~= b.drop_last().update(i, v));
        lemma_byte_sum_update(b.drop_last(), i, v);
    }
}

/// The checksum catches any change of a single byte: a table whose checksum holds
/// fails it once one of its bytes is changed.
pub proof fn law_checksum_detects_single_byte_change(b: Seq<u8>, i: int, v: u8)
    requires
        0 <= i < b.len(),
        v != b[i],
        checksum_ok(b),
    ensures
        !checksum_ok(b.update(i, v)),
{
    lemma_byte_sum_update(b, i, v);
    let s = byte_sum(b) as int;
    let t = byte_sum(b.update(i, v)) as int;
    let d = v - b[i];
    assert(t == s + d);
    assert(-256 < d < 256 && d != 0);
    assert(s % 256 == 0 ==> t % 256 != 0) by (nonlinear_arith)
        requires
            t == s + d,
            -256 < d < 256,
            d != 0,
            s >= 0,
            t >= 0,
    ;
}


/// The text of each string of `v`.
pub open spec fn lines_text(v: Seq<String>) -> Seq<Seq<char>> {
    v.map_values(|s: String| s@)
}

/// The lines of the verbose report on `t`: a warning when the checksum fails, then
/// each header and SLS field.
pub open spec fn detail_lines(t: MsdmTable) -> Seq<Seq<char>> {
    let warning: Seq<Seq<char>> = if t.checksum_valid {
        seq![]
    } else {
        seq!["Warning: ACPI checksum mismatch. Possible firmware bug."@, ""@]
    };
    warning + seq![
        "MSDM table details:"@,
        "  Table length:      "@ + decimal(t.length as nat) + " bytes"@,
        "  Revision:          "@ + decimal(t.revision as nat),
        "  Checksum:          0x"@ + hex2(t.checksum) + " ("@ + (if t.checksum_valid {
            "valid"@
        } else {
            "invalid"@
        }) + ")"@,
        "  OEM ID:            "@ + t.oem_id@,
        "  OEM Table ID:      "@ + t.oem_table_id@,
        "  OEM Revision:      "@ + decimal(t.oem_revision as nat),
        "  Creator ID:        "@ + t.creator_id@,
        "  Creator Revision:  "@ + decimal(t.creator_revision as nat),
        "  SLS Version:       "@ + decimal(t.sls_version as nat),
        "  SLS Data Type:     "@ + decimal(t.sls_data_type as nat),
        "  SLS Data Length:    "@ + decimal(t.sls_data_length as nat),
    ]
}

/// `label` followed by `n` in decimal.
fn labelled_number(label: &str, n: u32) -> (r: String)
    ensures
        r@ == label@ + decimal(n as nat),
{
    let mut s = String::from_str(label);
    append_decimal(&mut s, n as usize);
    s
}

/// `label` followed by `text`.
fn labelled_text(label: &str, text: &String) -> (r: String)
    ensures
        r@ == label@ + text@,
{
    let mut s = String::from_str(label);
    s.append(text.as_str());
    s
}

impl MsdmTable {
    /// The lines of the verbose report on this table.
    pub fn details(&self) -> (r: Vec<String>)
        ensures
            lines_text(r@) == detail_lines(*self),
    {
        let mut lines: Vec<String> = Vec::new();
        if !self.checksum_valid {
            lines.push(String::from_str("Warning: ACPI checksum mismatch. Possible firmware bug."));
            lines.push(String::from_str(""));
        }
        lines.push(String::from_str("MSDM table details:"));
        let mut length = labelled_number("  Table length:      ", self.length);
        length.append(" bytes");
        lines.push(length);
        lines.push(labelled_number("  Revision:          ", self.revision as u32));
        let mut checksum = String::from_str("  Checksum:          0x");
        append_hex2(&mut checksum, self.checksum);
        checksum.append(" (");
        checksum.append(
            if self.checksum_valid {
                "valid"
            } else {
                "invalid"
            },
        );
        checksum.append(")");
        lines.push(checksum);
        lines.push(labelled_text("  OEM ID:            ", &self.oem_id));
        lines.push(labelled_text("  OEM Table ID:      ", &self.oem_table_id));
        lines.push(labelled_number("  OEM Revision:      ", self.oem_revision));
        lines.push(labelled_text("  Creator ID:        ", &self.creator_id));
        lines.push(labelled_number("  Creator Revision:  ", self.creator_revision));
        lines.push(labelled_number("  SLS Version:       ", self.sls_version));
        lines.push(labelled_number("  SLS Data Type:     ", self.sls_data_type));
        lines.push(labelled_number("  SLS Data Length:    ", self.sls_data_length));
        assert(lines_text(lines@) =~= detail_lines(*self));
        lines
    }
}

/// Whether `b[lo..hi]` is printable ASCII (0x20 to 0x7E) that neither starts nor
/// ends with a space.
pub open spec fn unpadded_ascii(b: Seq<u8>, lo: int, hi: int) -> bool {
    &&& 0 <= lo < hi <= b.len()
    &&& forall|i: int| lo <= i < hi ==> 0x20 <= #[trigger] b[i] <= 0x7E
    &&& b[lo] != 0x20
    &&& b[hi - 1] != 0x20
}

/// The little-endian number in the four bytes from `b[i]` on, written out.
pub open spec fn le4(b: Seq<u8>, i: int) -> int {
    b[i] + 256 * b[i + 1] + 65536 * b[i + 2] + 16777216 * b[i + 3]
}

proof fn lemma_unpadded_field(b: Seq<u8>, lo: int, hi: int)
    requires
        unpadded_ascii(b, lo, hi),
    ensures
        text_field(b, lo, hi - lo) == ascii_chars_of(b.subrange(lo, hi)),
        ascii_chars_of(b.subrange(lo, hi)).len() == hi - lo,
{
    let sub = b.subrange(lo, hi);
    assert forall|i: int| 0 <= i < sub.len() implies #[trigger] sub[i] < 0x80 by {
        assert(sub[i] == b[lo + i]);
    }
    lemma_ascii_bytes_decode(sub);
    let c = ascii_chars_of(sub);
    assert(c[0] == b[lo] as char);
    assert(c.last() == b[hi - 1] as char);
    lemma_padded_text_unpadded(c);
}

/// Where each field of a parsed table comes from, by byte offset: the header
/// numbers are read little-endian at their offsets, and a text field whose bytes are
/// printable ASCII without padding is those very bytes, all of them. A product key
/// stored in ASCII in the shape `XXXXX-XXXXX-XXXXX-XXXXX-XXXXX` comes out as those 29
/// bytes with `a-z` turned into `A-Z`.
pub proof fn law_table_layout(b: Seq<u8>, t: MsdmTable)
    requires
        table_parsed(b, t),
    ensures
        b.len() >= 85,
        b[0] == 0x4D && b[1] == 0x53 && b[2] == 0x44 && b[3] == 0x4D,
        t.length == le4(b, 4),
        t.revision == b[8],
        t.checksum == b[9],
        t.oem_revision == le4(b, 24),
        t.creator_revision == le4(b, 32),
        t.sls_version == le4(b, 36),
        t.sls_data_type == le4(b, 44),
        t.sls_data_length == le4(b, 52),
        t.checksum_valid == (byte_sum(b) % 256 == 0),
        unpadded_ascii(b, 10, 16) ==> t.oem_id@.len() == 6 && t.oem_id@ == ascii_chars_of(
            b.subrange(10, 16),
        ),
        unpadded_ascii(b, 16, 24) ==> t.oem_table_id@.len() == 8 && t.oem_table_id@
            == ascii_chars_of(b.subrange(16, 24)),
        unpadded_ascii(b, 28, 32) ==> t.creator_id@.len() == 4 && t.creator_id@ == ascii_chars_of(
            b.subrange(28, 32),
        ),
        (forall|i: int| 56 <= i < 85 ==> #[trigger] b[i] < 0x80) && key_shape(
            ascii_chars_of(b.subrange(56, 85)),
        ) ==> t.product_key@.len() == 29 && forall|i: int|
            0 <= i < 29 ==> #[trigger] t.product_key@[i] as int == if 97 <= b[56 + i] <= 122 {
                b[56 + i] - 32
            } else {
                b[56 + i] as int
            },
{
    if unpadded_ascii(b, 10, 16) {
        lemma_unpadded_field(b, 10, 16);
    }
    if unpadded_ascii(b, 16, 24) {
        lemma_unpadded_field(b, 16, 24);
    }
    if unpadded_ascii(b, 28, 32) {
        lemma_unpadded_field(b, 28, 32);
    }
    let kf = b.subrange(56, 85);
    if (forall|i: int| 56 <= i < 85 ==> #[trigger] b[i] < 0x80) && key_shape(ascii_chars_of(kf)) {
        assert forall|i: int| 0 <= i < kf.len() implies #[trigger] kf[i] < 0x80 by {
            assert(kf[i] == b[56 + i]);
        }
        lemma_ascii_bytes_decode(kf);
        let c = ascii_chars_of(kf);
        assert(key_field(b) == kf);
        assert(is_ascii_alnum(c[0]));
        assert(is_ascii_alnum(c[28]));
        assert(c.last() == c[28]);
        lemma_key_text_unpadded(c);
        law_key_format_exact(c);
        assert forall|i: int| 0 <= i < 29 implies #[trigger] t.product_key@[i] as int == if 97
            <= b[56 + i] <= 122 {
            b[56 + i] - 32
        } else {
            b[56 + i] as int
        } by {
            assert(t.product_key@[i] == ascii_upper(c[i]));
            assert(c[i] == kf[i] as char);
            assert(kf[i] == b[56 + i]);
            law_ascii_upper(c[i]);
        }
    }
}

/// Each line of the verbose report carries the field that its label names: after
/// the checksum warning, when there is one, come the title, then the table length,
/// revision, checksum, OEM ID, OEM table ID, OEM revision, creator ID, creator
/// revision, SLS version, SLS data type and SLS data length, each after its label.
pub proof fn law_details_lines(t: MsdmTable)
    ensures
        ({
            let d = detail_lines(t);
            let w: int = if t.checksum_valid {
                0
            } else {
                2
            };
            &&& d.len() == w + 12
            &&& !t.checksum_valid ==> d[0] == "Warning: ACPI checksum mismatch. Possible firmware bug."@
                && d[1] == ""@
            &&& d[w] == "MSDM table details:"@
            &&& d[w + 1] == "  Table length:      "@ + decimal(t.length as nat) + " bytes"@
            &&& d[w + 2] == "  Revision:          "@ + decimal(t.revision as nat)
            &&& d[w + 3] == "  Checksum:          0x"@ + hex2(t.checksum) + (if t.checksum_valid {
                " (valid)"@
            } else {
                " (invalid)"@
            })
            &&& d[w + 4] == "  OEM ID:            "@ + t.oem_id@
            &&& d[w + 5] == "  OEM Table ID:      "@ + t.oem_table_id@
            &&& d[w + 6] == "  OEM Revision:      "@ + decimal(t.oem_revision as nat)
            &&& d[w + 7] == "  Creator ID:        "@ + t.creator_id@
            &&& d[w + 8] == "  Creator Revision:  "@ + decimal(t.creator_revision as nat)
            &&& d[w + 9] == "  SLS Version:       "@ + decimal(t.sls_version as nat)
            &&& d[w + 10] == "  SLS Data Type:     "@ + decimal(t.sls_data_type as nat)
            &&& d[w + 11] == "  SLS Data Length:    "@ + decimal(t.sls_data_length as nat)
        }),
{
    reveal_strlit(" (");
    reveal_strlit("valid");
    reveal_strlit("invalid");
    reveal_strlit(")");
    reveal_strlit(" (valid)");
    reveal_strlit(" (invalid)");
    let h = "  Checksum:          0x"@ + hex2(t.checksum);
    assert(h + " ("@ + "valid"@ + ")"@ =~= h + " (valid)"@);
    assert(h + " ("@ + "invalid"@ + ")"@ =~= h + " (invalid)"@);
}

} // verus!
