use vstd::prelude::*;

use crate::common::first_index;
use crate::model::{BlockView, DataBlock, FileView, LocalTimeType, TzifFile, Version};
use crate::error::{agrees, TzifError};
use crate::text::str_equal;
use crate::validate::{
    designation_end, is_designation_byte, is_nul, is_valid_file, spec_validate_file, unspecified_designation, validate_file,
};

verus! {

/// Interoperability concerns of RFC 9636 Appendix A: things a valid file may hold that
/// some readers mishandle. The `block` fields name the data block, `"v1"` or `"v2_plus"`.
#[derive(Clone, Debug, PartialEq, Eq, PartialOrd, Ord)]
pub enum InteroperabilityWarning {
    VersionOneDataMayBeIncomplete,
    VersionThreeOrLaterFooterMayConfuseVersionTwoReaders,
    VersionFourLeapSecondTableMayConfuseStrictRfc8536Readers,
    FooterMayBeIgnoredByReaders,
    MissingEarlyNoOpTransition { block: &'static str },
    FirstTransitionAfterRecommendedCompatibilityPoint { block: &'static str, timestamp: i64 },
    TransitionBeforeRecommendedLowerBound { block: &'static str, index: usize, timestamp: i64 },
    MinimumI64Transition { block: &'static str, index: usize },
    NegativeTransition { block: &'static str, index: usize, timestamp: i64 },
    FooterContainsAngleBracket,
    DesignationNonAscii { block: &'static str, index: usize, designation: Vec<u8> },
    DesignationLengthOutsideRecommendedRange { block: &'static str, index: usize, designation: String },
    DesignationContainsNonRecommendedAscii { block: &'static str, index: usize, designation: String },
    UnspecifiedLocalTimeDesignation { block: &'static str, index: usize },
    DaylightOffsetLessThanStandardOffset { block: &'static str, daylight_offset: i32, standard_offset: i32 },
    LeapSecondWithSubMinuteOffset { block: &'static str, offset: i32 },
    OffsetOutsideConventionalRange { block: &'static str, index: usize, offset: i32 },
    OffsetOutsideRecommendedRange { block: &'static str, index: usize, offset: i32 },
    NegativeSubHourOffset { block: &'static str, index: usize, offset: i32 },
    OffsetNotMultipleOfMinute { block: &'static str, index: usize, offset: i32 },
    OffsetNotMultipleOfQuarterHour { block: &'static str, index: usize, offset: i32 },
    UnusedLocalTimeType { block: &'static str, index: usize },
    UnusedDesignationOctet { block: &'static str, index: usize },
}

/// The position of a block name in the order of `"v1"` < `"v2_plus"`.
pub open spec fn block_rank(block: Seq<char>) -> i128 {
    if block == "v1"@ {
        0
    } else {
        1
    }
}

/// Bytes as key entries.
pub open spec fn byte_key(b: Seq<u8>) -> Seq<i128> {
    b.map_values(|x: u8| x as i128)
}

/// The sort key of a warning: its variant's position, then its fields in order, with a
/// designation's bytes last. Keys compare lexicographically (`lex_lt`) exactly as the
/// derived `Ord` compares warnings whose block is `"v1"` or `"v2_plus"`.
pub open spec fn warning_key(w: InteroperabilityWarning) -> Seq<i128> {
    match w {
        InteroperabilityWarning::VersionOneDataMayBeIncomplete => seq![0],
        InteroperabilityWarning::VersionThreeOrLaterFooterMayConfuseVersionTwoReaders => seq![1],
        InteroperabilityWarning::VersionFourLeapSecondTableMayConfuseStrictRfc8536Readers => seq![2],
        InteroperabilityWarning::FooterMayBeIgnoredByReaders => seq![3],
        InteroperabilityWarning::MissingEarlyNoOpTransition { block } => seq![4, block_rank(block@)],
        InteroperabilityWarning::FirstTransitionAfterRecommendedCompatibilityPoint { block, timestamp } =>
            seq![5, block_rank(block@), timestamp as i128],
        InteroperabilityWarning::TransitionBeforeRecommendedLowerBound { block, index, timestamp } =>
            seq![6, block_rank(block@), index as i128, timestamp as i128],
        InteroperabilityWarning::MinimumI64Transition { block, index } =>
            seq![7, block_rank(block@), index as i128],
        InteroperabilityWarning::NegativeTransition { block, index, timestamp } =>
            seq![8, block_rank(block@), index as i128, timestamp as i128],
        InteroperabilityWarning::FooterContainsAngleBracket => seq![9],
        InteroperabilityWarning::DesignationNonAscii { block, index, designation } =>
            seq![10, block_rank(block@), index as i128] + byte_key(designation@),
        InteroperabilityWarning::DesignationLengthOutsideRecommendedRange { block, index, designation } =>
            seq![11, block_rank(block@), index as i128] + byte_key(vstd::utf8::encode_utf8(designation@)),
        InteroperabilityWarning::DesignationContainsNonRecommendedAscii { block, index, designation } =>
            seq![12, block_rank(block@), index as i128] + byte_key(vstd::utf8::encode_utf8(designation@)),
        InteroperabilityWarning::UnspecifiedLocalTimeDesignation { block, index } =>
            seq![13, block_rank(block@), index as i128],
        InteroperabilityWarning::DaylightOffsetLessThanStandardOffset { block, daylight_offset, standard_offset } =>
            seq![14, block_rank(block@), daylight_offset as i128, standard_offset as i128],
        InteroperabilityWarning::LeapSecondWithSubMinuteOffset { block, offset } =>
            seq![15, block_rank(block@), offset as i128],
        InteroperabilityWarning::OffsetOutsideConventionalRange { block, index, offset } =>
            seq![16, block_rank(block@), index as i128, offset as i128],
        InteroperabilityWarning::OffsetOutsideRecommendedRange { block, index, offset } =>
            seq![17, block_rank(block@), index as i128, offset as i128],
        InteroperabilityWarning::NegativeSubHourOffset { block, index, offset } =>
            seq![18, block_rank(block@), index as i128, offset as i128],
        InteroperabilityWarning::OffsetNotMultipleOfMinute { block, index, offset } =>
            seq![19, block_rank(block@), index as i128, offset as i128],
        InteroperabilityWarning::OffsetNotMultipleOfQuarterHour { block, index, offset } =>
            seq![20, block_rank(block@), index as i128, offset as i128],
        InteroperabilityWarning::UnusedLocalTimeType { block, index } =>
            seq![21, block_rank(block@), index as i128],
        InteroperabilityWarning::UnusedDesignationOctet { block, index } =>
            seq![22, block_rank(block@), index as i128],
    }
}

/// Whether a block name is one of the two that warnings use.
pub open spec fn is_block_name(block: Seq<char>) -> bool {
    block == "v1"@ || block == "v2_plus"@
}

/// Whether the warning's `block` field, if it has one, names one of the two blocks.
pub open spec fn names_block(w: InteroperabilityWarning) -> bool {
    match w {
        InteroperabilityWarning::MissingEarlyNoOpTransition { block } => is_block_name(block@),
        InteroperabilityWarning::FirstTransitionAfterRecommendedCompatibilityPoint { block, .. } => is_block_name(block@),
        InteroperabilityWarning::TransitionBeforeRecommendedLowerBound { block, .. } => is_block_name(block@),
        InteroperabilityWarning::MinimumI64Transition { block, .. } => is_block_name(block@),
        InteroperabilityWarning::NegativeTransition { block, .. } => is_block_name(block@),
        InteroperabilityWarning::DesignationNonAscii { block, .. } => is_block_name(block@),
        InteroperabilityWarning::DesignationLengthOutsideRecommendedRange { block, .. } => is_block_name(block@),
        InteroperabilityWarning::DesignationContainsNonRecommendedAscii { block, .. } => is_block_name(block@),
        InteroperabilityWarning::UnspecifiedLocalTimeDesignation { block, .. } => is_block_name(block@),
        InteroperabilityWarning::DaylightOffsetLessThanStandardOffset { block, .. } => is_block_name(block@),
        InteroperabilityWarning::LeapSecondWithSubMinuteOffset { block, .. } => is_block_name(block@),
        InteroperabilityWarning::OffsetOutsideConventionalRange { block, .. } => is_block_name(block@),
        InteroperabilityWarning::OffsetOutsideRecommendedRange { block, .. } => is_block_name(block@),
        InteroperabilityWarning::NegativeSubHourOffset { block, .. } => is_block_name(block@),
        InteroperabilityWarning::OffsetNotMultipleOfMinute { block, .. } => is_block_name(block@),
        InteroperabilityWarning::OffsetNotMultipleOfQuarterHour { block, .. } => is_block_name(block@),
        InteroperabilityWarning::UnusedLocalTimeType { block, .. } => is_block_name(block@),
        InteroperabilityWarning::UnusedDesignationOctet { block, .. } => is_block_name(block@),
        _ => true,
    }
}

/// Lexicographic order on keys: a proper prefix comes first.
pub open spec fn lex_lt(a: Seq<i128>, b: Seq<i128>) -> bool
    decreases a.len(),
{
    if a.len() == 0 {
        b.len() > 0
    } else if b.len() == 0 {
        false
    } else if a[0] != b[0] {
        a[0] < b[0]
    } else {
        lex_lt(a.drop_first(), b.drop_first())
    }
}

pub proof fn lemma_lex_irreflexive(a: Seq<i128>)
    ensures
        !lex_lt(a, a),
    decreases a.len(),
{
    if a.len() > 0 {
        lemma_lex_irreflexive(a.drop_first());
    }
}

pub proof fn lemma_lex_asymmetric(a: Seq<i128>, b: Seq<i128>)
    ensures
        lex_lt(a, b) ==> !lex_lt(b, a),
    decreases a.len(),
{
    if a.len() > 0 && b.len() > 0 && a[0] == b[0] {
        lemma_lex_asymmetric(a.drop_first(), b.drop_first());
    }
}

pub proof fn lemma_lex_transitive(a: Seq<i128>, b: Seq<i128>, c: Seq<i128>)
    requires
        lex_lt(a, b),
        lex_lt(b, c),
    ensures
        lex_lt(a, c),
    decreases a.len(),
{
    if a.len() > 0 && b.len() > 0 && c.len() > 0 && a[0] == b[0] && b[0] == c[0] {
        lemma_lex_transitive(a.drop_first(), b.drop_first(), c.drop_first());
    }
}

pub proof fn lemma_lex_total(a: Seq<i128>, b: Seq<i128>)
    ensures
        a == b || lex_lt(a, b) || lex_lt(b, a),
    decreases a.len(),
{
    if a.len() > 0 && b.len() > 0 && a[0] == b[0] {
        lemma_lex_total(a.drop_first(), b.drop_first());
        if a.drop_first() == b.drop_first() {
            assert(a =~= seq![a[0]] + a.drop_first());
            assert(b =~= seq![b[0]] + b.drop_first());
        }
    } else if a.len() == 0 && b.len() == 0 {
        assert(a =~= b);
    }
}

/// The keys of a sequence of warnings.
pub open spec fn keys_of(ws: Seq<InteroperabilityWarning>) -> Seq<Seq<i128>> {
    ws.map_values(|w: InteroperabilityWarning| warning_key(w))
}

/// Whether the keys strictly ascend, so that no two warnings are equal.
pub open spec fn strictly_ascending(ks: Seq<Seq<i128>>) -> bool {
    forall|i: int, j: int| 0 <= i < j < ks.len() ==> lex_lt(#[trigger] ks[i], #[trigger] ks[j])
}

/// Whether every warning names one of the two blocks.
pub open spec fn all_name_blocks(ws: Seq<InteroperabilityWarning>) -> bool {
    forall|i: int| 0 <= i < ws.len() ==> names_block(#[trigger] ws[i])
}

/// Compares two keys: negative, zero or positive as `a` is before, equal to or after `b`.
fn compare_keys(a: &[i128], b: &[i128]) -> (r: i8)
    ensures
        (r < 0) == lex_lt(a@, b@),
        (r == 0) == (a@ == b@),
        (r > 0) == lex_lt(b@, a@),
{
    let mut i: usize = 0;
    proof {
        lemma_lex_asymmetric(a@, b@);
        lemma_lex_total(a@, b@);
        lemma_lex_irreflexive(a@);
        assert(a@.subrange(0, a@.len() as int) =~= a@);
        assert(b@.subrange(0, b@.len() as int) =~= b@);
    }
    while i < a.len() && i < b.len()
        invariant
            0 <= i <= a@.len(),
            i <= b@.len(),
            a@.subrange(0, i as int) == b@.subrange(0, i as int),
            lex_lt(a@, b@) == lex_lt(a@.subrange(i as int, a@.len() as int), b@.subrange(i as int, b@.len() as int)),
            lex_lt(b@, a@) == lex_lt(b@.subrange(i as int, b@.len() as int), a@.subrange(i as int, a@.len() as int)),
        decreases a@.len() - i,
    {
        let x = a[i];
        let y = b[i];
        let ghost sa = a@.subrange(i as int, a@.len() as int);
        let ghost sb = b@.subrange(i as int, b@.len() as int);
        if x < y {
            return -1;
        }
        if x > y {
            return 1;
        }
        proof {
            assert(sa.drop_first() =~= a@.subrange(i + 1, a@.len() as int));
            assert(sb.drop_first() =~= b@.subrange(i + 1, b@.len() as int));
            assert(a@.subrange(0, i + 1) =~= a@.subrange(0, i as int).push(x));
            assert(b@.subrange(0, i + 1) =~= b@.subrange(0, i as int).push(y));
        }
        i = i + 1;
    }
    proof {
        assert(a@.subrange(0, i as int) =~= a@ || b@.subrange(0, i as int) =~= b@);
    }
    if a.len() == b.len() {
        proof {
            assert(a@ =~= a@.subrange(0, i as int));
            assert(b@ =~= b@.subrange(0, i as int));
        }
        0
    } else if a.len() < b.len() {
        proof {
            assert(a@.subrange(i as int, a@.len() as int).len() == 0);
        }
        -1
    } else {
        proof {
            assert(b@.subrange(i as int, b@.len() as int).len() == 0);
        }
        1
    }
}

/// The designation that starts at `start` in the table `des`: the bytes up to the next
/// NUL, or up to the end of the table when no NUL follows; `None` when `start` lies
/// beyond the table.
pub open spec fn spec_designation_text(des: Seq<u8>, start: int) -> Option<Seq<u8>> {
    if start > des.len() {
        None
    } else {
        match first_index(is_nul(des), start, des.len() as int) {
            Some(end) => Some(des.subrange(start, end)),
            None => Some(des.subrange(start, des.len() as int)),
        }
    }
}

/// Whether local time type `i` of `block` exists and is designated `-00`.
pub open spec fn spec_is_placeholder_type(block: BlockView, i: int) -> bool {
    &&& 0 <= i < block.local_time_types.len()
    &&& spec_designation_text(block.designations, block.local_time_types[i].designation_index as int)
        == Some(unspecified_designation())
}

/// The designation that starts at `designation_index` in the block's table.
pub fn designation_at(block: &DataBlock, designation_index: u8) -> (res: Option<&[u8]>)
    ensures
        match res {
            Some(d) => spec_designation_text(block.designations@, designation_index as int) == Some(d@),
            None => spec_designation_text(block.designations@, designation_index as int) is None,
        },
{
    let start = designation_index as usize;
    if start > block.designations.len() {
        return None;
    }
    let end = match designation_end(&block.designations, start) {
        Some(e) => e,
        None => block.designations.len(),
    };
    Some(vstd::slice::slice_subrange(block.designations.as_slice(), start, end))
}

/// Whether local time type `type_index` exists and is designated `-00`, the RFC 9636
/// designation for unspecified local time.
pub fn is_placeholder_type(block: &DataBlock, type_index: usize) -> (b: bool)
    ensures
        b == spec_is_placeholder_type(block@, type_index as int),
{
    if type_index >= block.local_time_types.len() {
        return false;
    }
    let t = block.local_time_types[type_index];
    match designation_at(block, t.designation_index) {
        Some(d) => {
            let r = d.len() == 3 && d[0] == 0x2d && d[1] == 0x30 && d[2] == 0x30;
            proof {
                if r {
                    assert(d@ =~= unspecified_designation());
                }
            }
            r
        },
        None => false,
    }
}


fn block_rank_of(block: &str) -> (r: i128)
    ensures
        r == block_rank(block@),
{
    if str_equal(block, "v1") {
        0
    } else {
        1
    }
}

fn push_bytes_key(k: &mut Vec<i128>, b: &[u8])
    ensures
        final(k)@ == old(k)@ + byte_key(b@),
{
    let ghost k0 = k@;
    let mut i: usize = 0;
    while i < b.len()
        invariant
            0 <= i <= b@.len(),
            k@ == k0 + byte_key(b@.subrange(0, i as int)),
        decreases b@.len() - i,
    {
        k.push(b[i] as i128);
        proof {
            assert(byte_key(b@.subrange(0, i + 1)) =~= byte_key(b@.subrange(0, i as int)).push(b@[i as int] as i128));
        }
        i = i + 1;
    }
    proof {
        assert(b@.subrange(0, b@.len() as int) =~= b@);
    }
}

fn key_of(prefix: i128, block: &str, fields: &[i128]) -> (k: Vec<i128>)
    ensures
        k@ == seq![prefix, block_rank(block@)] + fields@,
{
    let mut k: Vec<i128> = Vec::new();
    k.push(prefix);
    k.push(block_rank_of(block));
    let mut i: usize = 0;
    while i < fields.len()
        invariant
            0 <= i <= fields@.len(),
            k@ == seq![prefix, block_rank(block@)] + fields@.subrange(0, i as int),
        decreases fields@.len() - i,
    {
        k.push(fields[i]);
        proof {
            assert(fields@.subrange(0, i + 1) =~= fields@.subrange(0, i as int).push(fields@[i as int]));
        }
        i = i + 1;
    }
    proof {
        assert(fields@.subrange(0, fields@.len() as int) =~= fields@);
    }
    k
}

/// The sort key of a warning.
fn warning_key_exec(w: &InteroperabilityWarning) -> (k: Vec<i128>)
    ensures
        k@ == warning_key(*w),
{
    let k = match w {
        InteroperabilityWarning::VersionOneDataMayBeIncomplete => vec![0],
        InteroperabilityWarning::VersionThreeOrLaterFooterMayConfuseVersionTwoReaders => vec![1],
        InteroperabilityWarning::VersionFourLeapSecondTableMayConfuseStrictRfc8536Readers => vec![2],
        InteroperabilityWarning::FooterMayBeIgnoredByReaders => vec![3],
        InteroperabilityWarning::MissingEarlyNoOpTransition { block } => key_of(4, block, &[]),
        InteroperabilityWarning::FirstTransitionAfterRecommendedCompatibilityPoint { block, timestamp } =>
            key_of(5, block, &[*timestamp as i128]),
        InteroperabilityWarning::TransitionBeforeRecommendedLowerBound { block, index, timestamp } =>
            key_of(6, block, &[*index as i128, *timestamp as i128]),
        InteroperabilityWarning::MinimumI64Transition { block, index } => key_of(7, block, &[*index as i128]),
        InteroperabilityWarning::NegativeTransition { block, index, timestamp } =>
            key_of(8, block, &[*index as i128, *timestamp as i128]),
        InteroperabilityWarning::FooterContainsAngleBracket => vec![9],
        InteroperabilityWarning::DesignationNonAscii { block, index, designation } => {
            let mut k = key_of(10, block, &[*index as i128]);
            push_bytes_key(&mut k, designation.as_slice());
            k
        },
        InteroperabilityWarning::DesignationLengthOutsideRecommendedRange { block, index, designation } => {
            let mut k = key_of(11, block, &[*index as i128]);
            push_bytes_key(&mut k, designation.as_str().as_bytes());
            k
        },
        InteroperabilityWarning::DesignationContainsNonRecommendedAscii { block, index, designation } => {
            let mut k = key_of(12, block, &[*index as i128]);
            push_bytes_key(&mut k, designation.as_str().as_bytes());
            k
        },
        InteroperabilityWarning::UnspecifiedLocalTimeDesignation { block, index } =>
            key_of(13, block, &[*index as i128]),
        InteroperabilityWarning::DaylightOffsetLessThanStandardOffset { block, daylight_offset, standard_offset } =>
            key_of(14, block, &[*daylight_offset as i128, *standard_offset as i128]),
        InteroperabilityWarning::LeapSecondWithSubMinuteOffset { block, offset } =>
            key_of(15, block, &[*offset as i128]),
        InteroperabilityWarning::OffsetOutsideConventionalRange { block, index, offset } =>
            key_of(16, block, &[*index as i128, *offset as i128]),
        InteroperabilityWarning::OffsetOutsideRecommendedRange { block, index, offset } =>
            key_of(17, block, &[*index as i128, *offset as i128]),
        InteroperabilityWarning::NegativeSubHourOffset { block, index, offset } =>
            key_of(18, block, &[*index as i128, *offset as i128]),
        InteroperabilityWarning::OffsetNotMultipleOfMinute { block, index, offset } =>
            key_of(19, block, &[*index as i128, *offset as i128]),
        InteroperabilityWarning::OffsetNotMultipleOfQuarterHour { block, index, offset } =>
            key_of(20, block, &[*index as i128, *offset as i128]),
        InteroperabilityWarning::UnusedLocalTimeType { block, index } => key_of(21, block, &[*index as i128]),
        InteroperabilityWarning::UnusedDesignationOctet { block, index } => key_of(22, block, &[*index as i128]),
    };
    proof {
        assert(k@ =~= warning_key(*w));
    }
    k
}

/// Puts `w` into its place in `out`, unless a warning with the same key is there already.
fn insert_warning(out: &mut Vec<InteroperabilityWarning>, w: InteroperabilityWarning)
    requires
        strictly_ascending(keys_of(old(out)@)),
    ensures
        strictly_ascending(keys_of(final(out)@)),
        forall|k: Seq<i128>| keys_of(final(out)@).contains(k) <==> (keys_of(old(out)@).contains(k) || k == warning_key(w)),
        forall|x: InteroperabilityWarning| final(out)@.contains(x) ==> old(out)@.contains(x) || x == w,
{
    let ghost ks = keys_of(out@);
    let wk = warning_key_exec(&w);
    let mut j: usize = 0;
    let mut c: i8 = 1;
    while j < out.len()
        invariant
            0 <= j <= out@.len(),
            out@.len() == ks.len(),
            ks == keys_of(out@),
            forall|i: int| 0 <= i < j ==> lex_lt(#[trigger] ks[i], wk@),
        decreases out@.len() - j,
    {
        let kj = warning_key_exec(&out[j]);
        c = compare_keys(kj.as_slice(), wk.as_slice());
        if c >= 0 {
            break;
        }
        j = j + 1;
    }
    if j < out.len() && c == 0 {
        assert(keys_of(out@)[j as int] == warning_key(w));
        return;
    }
    let ghost old_out = out@;
    out.insert(j, w);
    proof {
        old_out.insert_ensures(j as int, w);
        let nk = keys_of(out@);
        assert(nk.len() == ks.len() + 1);
        assert forall|i: int| 0 <= i < nk.len() implies #[trigger] nk[i] == (if i < j { ks[i] } else if i == j { warning_key(w) } else { ks[i - 1] }) by {
            if i > j {
                assert(out@[i] == old_out[i - 1]);
            }
        }
        if j < ks.len() {
            lemma_lex_total(ks[j as int], wk@);
            lemma_lex_asymmetric(ks[j as int], wk@);
        }
        assert forall|a: int, b: int| 0 <= a < b < nk.len() implies lex_lt(#[trigger] nk[a], #[trigger] nk[b]) by {
            if b < j {
            } else if b == j {
            } else if a < j {
                lemma_lex_transitive(ks[a], wk@, ks[j as int]);
                if b - 1 > j {
                    lemma_lex_transitive(ks[a], ks[j as int], ks[b - 1]);
                }
            } else if a == j {
                if b - 1 > j {
                    lemma_lex_transitive(wk@, ks[j as int], ks[b - 1]);
                }
            } else {
                assert(lex_lt(ks[a - 1], ks[b - 1]));
            }
        }
        assert forall|k: Seq<i128>| nk.contains(k) <==> (ks.contains(k) || k == warning_key(w)) by {
            if nk.contains(k) {
                let i = choose|i: int| 0 <= i < nk.len() && nk[i] == k;
                if i < j {
                    assert(ks[i] == k);
                } else if i > j {
                    assert(ks[i - 1] == k);
                }
            }
            if ks.contains(k) {
                let i = choose|i: int| 0 <= i < ks.len() && ks[i] == k;
                if i < j {
                    assert(nk[i] == k);
                } else {
                    assert(nk[i + 1] == k);
                }
            }
            if k == warning_key(w) {
                assert(nk[j as int] == k);
            }
        }
        assert forall|x: InteroperabilityWarning| out@.contains(x) implies old_out.contains(x) || x == w by {
            let i = choose|i: int| 0 <= i < out@.len() && out@[i] == x;
            if i < j {
                assert(old_out[i] == x);
            } else if i > j {
                assert(old_out[i - 1] == x);
            }
        }
    }
}


/// A one-key list when `c` holds, else the empty list.
pub open spec fn cond_key(c: bool, k: Seq<i128>) -> Seq<Seq<i128>> {
    if c {
        seq![k]
    } else {
        seq![]
    }
}

/// How many of the first `n` times fit in 32 bits.
pub open spec fn count_i32_times(times: Seq<i64>, n: int) -> int
    decreases n,
{
    if n <= 0 {
        0
    } else {
        count_i32_times(times, n - 1) + if i32::MIN <= times[n - 1] <= i32::MAX { 1int } else { 0int }
    }
}

/// Whether the file has a footer with at least one character.
pub open spec fn has_nonempty_footer(f: FileView) -> bool {
    f.footer is Some && f.footer.unwrap().len() > 0
}

/// Whether the footer holds `<` or `>`.
pub open spec fn footer_has_angle_bracket(f: FileView) -> bool {
    let b = vstd::utf8::encode_utf8(f.footer.unwrap());
    b.contains(0x3cu8) || b.contains(0x3eu8)
}

/// The warnings about the file as a whole: version 1 data with fewer transitions than
/// the 64-bit block has in 32-bit range, a footer in version 3 or later, a leap-second
/// table in version 4, any non-empty footer, and angle brackets in it.
pub open spec fn file_warning_keys(f: FileView) -> Seq<Seq<i128>> {
    let v1_incomplete = f.v2_plus is Some && f.v2_plus.unwrap().transition_times.len() > 0
        && f.v1.transition_times.len() < count_i32_times(
            f.v2_plus.unwrap().transition_times,
            f.v2_plus.unwrap().transition_times.len() as int,
        );
    cond_key(v1_incomplete, seq![0])
        + cond_key(f.version.rank() >= 3 && has_nonempty_footer(f), seq![1])
        + cond_key(f.version == Version::V4 && f.v2_plus is Some && f.v2_plus.unwrap().leap_seconds.len() > 0, seq![2])
        + cond_key(has_nonempty_footer(f), seq![3])
        + cond_key(has_nonempty_footer(f) && footer_has_angle_bracket(f), seq![9])
}

/// The warnings about the first transition: not to type 0, and later than the
/// earliest 32-bit time.
pub open spec fn first_transition_keys(b: BlockView, r: i128) -> Seq<Seq<i128>> {
    if b.transition_times.len() > 0 && b.transition_types.len() > 0 {
        cond_key(b.transition_types[0] != 0, seq![4, r])
            + cond_key(b.transition_times[0] > i32::MIN, seq![5, r, b.transition_times[0] as i128])
    } else {
        seq![]
    }
}

/// -2^59, the earliest transition time that RFC 9636 recommends.
pub open spec fn recommended_lower_bound() -> i64 {
    -0x0800_0000_0000_0000i64
}

/// The warnings about transition `i` at time `t`.
pub open spec fn transition_keys_at(t: i64, i: int, r: i128, sixty_four: bool) -> Seq<Seq<i128>> {
    cond_key(t < 0, seq![8, r, i as i128, t as i128])
        + cond_key(sixty_four && t < recommended_lower_bound(), seq![6, r, i as i128, t as i128])
        + cond_key(sixty_four && t == i64::MIN, seq![7, r, i as i128])
}

/// The warnings about the first `n` transitions.
pub open spec fn transition_keys(times: Seq<i64>, r: i128, sixty_four: bool, n: int) -> Seq<Seq<i128>>
    decreases n,
{
    if n <= 0 {
        seq![]
    } else {
        transition_keys(times, r, sixty_four, n - 1) + transition_keys_at(times[n - 1], n - 1, r, sixty_four)
    }
}

/// Whether every byte is below 0x80.
pub open spec fn is_ascii_bytes(d: Seq<u8>) -> bool {
    forall|k: int| 0 <= k < d.len() ==> #[trigger] d[k] < 0x80
}

/// The warnings about the designation of local time type `i`: `-00`, bytes that are not
/// ASCII, a length outside 3 to 6, and characters outside `[A-Za-z0-9+-]`.
pub open spec fn designation_keys(des: Seq<u8>, i: int, designation_index: u8, r: i128) -> Seq<Seq<i128>> {
    match spec_designation_text(des, designation_index as int) {
        None => seq![],
        Some(d) => if d == unspecified_designation() {
            seq![seq![13, r, i as i128]]
        } else if !(vstd::utf8::valid_utf8(d) && is_ascii_bytes(d)) {
            seq![seq![10, r, i as i128] + byte_key(d)]
        } else {
            cond_key(d.len() < 3 || d.len() > 6, seq![11, r, i as i128] + byte_key(d))
                + cond_key(!(forall|k: int| 0 <= k < d.len() ==> #[trigger] is_designation_byte(d[k])),
                    seq![12, r, i as i128] + byte_key(d))
        },
    }
}

/// The warnings about the UTC offset `o` of local time type `i`.
pub open spec fn offset_keys(o: i32, i: int, r: i128) -> Seq<Seq<i128>> {
    cond_key(!(-43200 <= o <= 43200), seq![16, r, i as i128, o as i128])
        + cond_key(!(-89999 <= o <= 93599), seq![17, r, i as i128, o as i128])
        + cond_key(-3599 <= o <= -1, seq![18, r, i as i128, o as i128])
        + (if o % 60 != 0 {
            seq![seq![19, r, i as i128, o as i128]]
        } else if o % 900 != 0 {
            seq![seq![20, r, i as i128, o as i128]]
        } else {
            seq![]
        })
}

/// The warnings about the first `n` local time types: their designations and offsets.
pub open spec fn local_time_type_keys(b: BlockView, r: i128, n: int) -> Seq<Seq<i128>>
    decreases n,
{
    if n <= 0 {
        seq![]
    } else {
        let t = b.local_time_types[n - 1];
        local_time_type_keys(b, r, n - 1) + designation_keys(b.designations, n - 1, t.designation_index, r)
            + offset_keys(t.utc_offset, n - 1, r)
    }
}

/// The greatest offset among the first `n` standard-time types that is above `d`.
pub open spec fn max_standard_above(types: Seq<LocalTimeType>, d: i32, n: int) -> Option<i32>
    decreases n,
{
    if n <= 0 {
        None
    } else {
        let prev = max_standard_above(types, d, n - 1);
        let t = types[n - 1];
        if !t.is_dst && d < t.utc_offset {
            match prev {
                Some(m) => Some(if t.utc_offset > m { t.utc_offset } else { m }),
                None => Some(t.utc_offset),
            }
        } else {
            prev
        }
    }
}

/// The warnings about daylight types among the first `n` whose offset is below that of
/// some standard type, with the greatest such standard offset.
pub open spec fn negative_dst_keys(types: Seq<LocalTimeType>, r: i128, n: int) -> Seq<Seq<i128>>
    decreases n,
{
    if n <= 0 {
        seq![]
    } else {
        let t = types[n - 1];
        negative_dst_keys(types, r, n - 1) + if t.is_dst && max_standard_above(types, t.utc_offset, types.len() as int) is Some {
            seq![seq![14, r, t.utc_offset as i128, max_standard_above(types, t.utc_offset, types.len() as int).unwrap() as i128]]
        } else {
            seq![]
        }
    }
}

/// The warnings about offsets that are not whole minutes among the first `n` types.
pub open spec fn sub_minute_keys(types: Seq<LocalTimeType>, r: i128, n: int) -> Seq<Seq<i128>>
    decreases n,
{
    if n <= 0 {
        seq![]
    } else {
        let o = types[n - 1].utc_offset;
        sub_minute_keys(types, r, n - 1) + cond_key(o % 60 != 0, seq![15, r, o as i128])
    }
}

/// Whether type `i` is used: type 0 always, others when some transition selects them.
pub open spec fn type_used(b: BlockView, i: int) -> bool {
    i == 0 || exists|j: int| 0 <= j < b.transition_types.len() && #[trigger] b.transition_types[j] as int == i
}

/// The warnings about unused local time types among the first `n`.
pub open spec fn unused_type_keys(b: BlockView, r: i128, n: int) -> Seq<Seq<i128>>
    decreases n,
{
    if n <= 0 {
        seq![]
    } else {
        unused_type_keys(b, r, n - 1) + cond_key(!type_used(b, n - 1), seq![21, r, (n - 1) as i128])
    }
}

/// Whether the NUL-terminated designation starting at `start` covers octet `i`.
pub open spec fn designation_covers(des: Seq<u8>, start: int, i: int) -> bool {
    &&& start <= des.len()
    &&& first_index(is_nul(des), start, des.len() as int) is Some
    &&& start <= i <= first_index(is_nul(des), start, des.len() as int).unwrap()
}

/// Whether some local time type's designation covers octet `i`.
pub open spec fn octet_used(b: BlockView, i: int) -> bool {
    exists|m: int| 0 <= m < b.local_time_types.len()
        && designation_covers(b.designations, #[trigger] b.local_time_types[m].designation_index as int, i)
}

/// The warnings about unused octets among the first `n` of the designation table.
pub open spec fn unused_octet_keys(b: BlockView, r: i128, n: int) -> Seq<Seq<i128>>
    decreases n,
{
    if n <= 0 {
        seq![]
    } else {
        unused_octet_keys(b, r, n - 1) + cond_key(!octet_used(b, n - 1), seq![22, r, (n - 1) as i128])
    }
}

/// The warnings about one data block, named `name`, whose times are 64-bit when
/// `sixty_four` holds.
pub open spec fn block_warning_keys(b: BlockView, name: Seq<char>, sixty_four: bool) -> Seq<Seq<i128>> {
    let r = block_rank(name);
    first_transition_keys(b, r)
        + transition_keys(b.transition_times, r, sixty_four, b.transition_times.len() as int)
        + local_time_type_keys(b, r, b.local_time_types.len() as int)
        + negative_dst_keys(b.local_time_types, r, b.local_time_types.len() as int)
        + (if b.leap_seconds.len() == 0 { seq![] } else { sub_minute_keys(b.local_time_types, r, b.local_time_types.len() as int) })
        + unused_type_keys(b, r, b.local_time_types.len() as int)
        + unused_octet_keys(b, r, b.designations.len() as int)
}

/// The keys of every interoperability warning that a file raises.
pub open spec fn spec_warning_keys(f: FileView) -> Seq<Seq<i128>> {
    file_warning_keys(f) + block_warning_keys(f.v1, "v1"@, false) + match f.v2_plus {
        Some(b) => block_warning_keys(b, "v2_plus"@, true),
        None => seq![],
    }
}


/// Appends `w` when `c` holds.
fn push_if(ws: &mut Vec<InteroperabilityWarning>, c: bool, w: InteroperabilityWarning)
    requires
        all_name_blocks(old(ws)@),
        names_block(w),
    ensures
        all_name_blocks(final(ws)@),
        keys_of(final(ws)@) == keys_of(old(ws)@) + cond_key(c, warning_key(w)),
{
    let ghost k0 = keys_of(ws@);
    if c {
        ws.push(w);
        assert(keys_of(ws@) =~= k0 + cond_key(c, warning_key(w)));
    } else {
        assert(keys_of(ws@) =~= k0 + cond_key(c, warning_key(w)));
    }
}

fn count_i32_fitting(times: &Vec<i64>) -> (n: usize)
    ensures
        n == count_i32_times(times@, times@.len() as int),
{
    let mut n: usize = 0;
    let mut i: usize = 0;
    while i < times.len()
        invariant
            0 <= i <= times@.len(),
            n == count_i32_times(times@, i as int),
            n <= i,
        decreases times@.len() - i,
    {
        if i32::MIN as i64 <= times[i] && times[i] <= i32::MAX as i64 {
            n = n + 1;
        }
        i = i + 1;
    }
    n
}

fn bytes_contain(b: &[u8], x: u8) -> (r: bool)
    ensures
        r == b@.contains(x),
{
    let mut i: usize = 0;
    while i < b.len()
        invariant
            0 <= i <= b@.len(),
            forall|j: int| 0 <= j < i ==> b@[j] != x,
        decreases b@.len() - i,
    {
        if b[i] == x {
            assert(b@[i as int] == x);
            return true;
        }
        i = i + 1;
    }
    false
}

fn push_file_warnings(file: &TzifFile, ws: &mut Vec<InteroperabilityWarning>)
    requires
        all_name_blocks(old(ws)@),
    ensures
        all_name_blocks(final(ws)@),
        keys_of(final(ws)@) == keys_of(old(ws)@) + file_warning_keys(file@),
{
    let ghost k0 = keys_of(ws@);
    let mut v1_incomplete = false;
    if let Some(v2) = &file.v2_plus {
        if v2.transition_times.len() > 0 {
            v1_incomplete = file.v1.transition_times.len() < count_i32_fitting(&v2.transition_times);
        }
    }
    push_if(ws, v1_incomplete, InteroperabilityWarning::VersionOneDataMayBeIncomplete);
    let nonempty_footer = match &file.footer {
        Some(footer) => !crate::text::str_is_empty(footer.as_str()),
        None => false,
    };
    push_if(ws, file.version.at_least_v3() && nonempty_footer,
        InteroperabilityWarning::VersionThreeOrLaterFooterMayConfuseVersionTwoReaders);
    let v4_leaps = matches!(file.version, Version::V4) && match &file.v2_plus {
        Some(block) => block.leap_seconds.len() > 0,
        None => false,
    };
    push_if(ws, v4_leaps, InteroperabilityWarning::VersionFourLeapSecondTableMayConfuseStrictRfc8536Readers);
    push_if(ws, nonempty_footer, InteroperabilityWarning::FooterMayBeIgnoredByReaders);
    let angle = match &file.footer {
        Some(footer) => {
            let b = footer.as_str().as_bytes();
            bytes_contain(b, 0x3c) || bytes_contain(b, 0x3e)
        },
        None => false,
    };
    push_if(ws, nonempty_footer && angle, InteroperabilityWarning::FooterContainsAngleBracket);
    assert(keys_of(ws@) =~= k0 + file_warning_keys(file@));
}

fn push_first_transition_warnings(
    block_name: &'static str,
    block: &DataBlock,
    ws: &mut Vec<InteroperabilityWarning>,
)
    requires
        all_name_blocks(old(ws)@),
        is_block_name(block_name@),
    ensures
        all_name_blocks(final(ws)@),
        keys_of(final(ws)@) == keys_of(old(ws)@) + first_transition_keys(block@, block_rank(block_name@)),
{
    let ghost k0 = keys_of(ws@);
    if block.transition_times.len() > 0 && block.transition_types.len() > 0 {
        let first = block.transition_times[0];
        let first_type = block.transition_types[0];
        push_if(ws, first_type != 0, InteroperabilityWarning::MissingEarlyNoOpTransition { block: block_name });
        push_if(ws, first > i32::MIN as i64,
            InteroperabilityWarning::FirstTransitionAfterRecommendedCompatibilityPoint { block: block_name, timestamp: first });
    }
    assert(keys_of(ws@) =~= k0 + first_transition_keys(block@, block_rank(block_name@)));
}

fn push_transition_warnings(
    block_name: &'static str,
    block: &DataBlock,
    sixty_four: bool,
    ws: &mut Vec<InteroperabilityWarning>,
)
    requires
        all_name_blocks(old(ws)@),
        is_block_name(block_name@),
    ensures
        all_name_blocks(final(ws)@),
        keys_of(final(ws)@) == keys_of(old(ws)@) + transition_keys(
            block.transition_times@, block_rank(block_name@), sixty_four, block.transition_times@.len() as int),
{
    let ghost k0 = keys_of(ws@);
    let ghost r = block_rank(block_name@);
    let times = &block.transition_times;
    let mut i: usize = 0;
    while i < times.len()
        invariant
            0 <= i <= times@.len(),
            all_name_blocks(ws@),
            keys_of(ws@) == k0 + transition_keys(times@, r, sixty_four, i as int),
        decreases times@.len() - i,
    {
        let t = times[i];
        let ghost k1 = keys_of(ws@);
        push_if(ws, t < 0, InteroperabilityWarning::NegativeTransition { block: block_name, index: i, timestamp: t });
        push_if(ws, sixty_four && t < -0x0800_0000_0000_0000i64,
            InteroperabilityWarning::TransitionBeforeRecommendedLowerBound { block: block_name, index: i, timestamp: t });
        push_if(ws, sixty_four && t == i64::MIN,
            InteroperabilityWarning::MinimumI64Transition { block: block_name, index: i });
        assert(keys_of(ws@) =~= k1 + transition_keys_at(t, i as int, r, sixty_four));
        assert(keys_of(ws@) =~= k0 + transition_keys(times@, r, sixty_four, i + 1));
        i = i + 1;
    }
}


fn is_ascii_slice(d: &[u8]) -> (r: bool)
    ensures
        r == is_ascii_bytes(d@),
{
    let mut k: usize = 0;
    while k < d.len()
        invariant
            0 <= k <= d@.len(),
            forall|m: int| 0 <= m < k ==> #[trigger] d@[m] < 0x80,
        decreases d@.len() - k,
    {
        if d[k] >= 0x80 {
            return false;
        }
        k = k + 1;
    }
    true
}

fn all_designation_bytes(d: &[u8]) -> (r: bool)
    ensures
        r == (forall|k: int| 0 <= k < d@.len() ==> #[trigger] is_designation_byte(d@[k])),
{
    let mut k: usize = 0;
    while k < d.len()
        invariant
            0 <= k <= d@.len(),
            forall|m: int| 0 <= m < k ==> #[trigger] is_designation_byte(d@[m]),
        decreases d@.len() - k,
    {
        if !crate::validate::is_designation_byte_exec(d[k]) {
            return false;
        }
        k = k + 1;
    }
    true
}

fn push_designation_warnings(
    block_name: &'static str,
    block: &DataBlock,
    index: usize,
    designation_index: u8,
    ws: &mut Vec<InteroperabilityWarning>,
)
    requires
        all_name_blocks(old(ws)@),
        is_block_name(block_name@),
    ensures
        all_name_blocks(final(ws)@),
        keys_of(final(ws)@) == keys_of(old(ws)@) + designation_keys(
            block.designations@, index as int, designation_index, block_rank(block_name@)),
{
    let ghost k0 = keys_of(ws@);
    let ghost r = block_rank(block_name@);
    let d = match designation_at(block, designation_index) {
        Some(d) => d,
        None => {
            assert(keys_of(ws@) =~= k0 + designation_keys(block.designations@, index as int, designation_index, r));
            return;
        },
    };
    if d.len() == 3 && d[0] == 0x2d && d[1] == 0x30 && d[2] == 0x30 {
        assert(d@ =~= unspecified_designation());
        push_if(ws, true, InteroperabilityWarning::UnspecifiedLocalTimeDesignation { block: block_name, index });
        assert(keys_of(ws@) =~= k0 + designation_keys(block.designations@, index as int, designation_index, r));
        return;
    }
    assert(d@ != unspecified_designation());
    let text = crate::text::utf8_string(vstd::slice::slice_to_vec(d));
    match text {
        Some(text) => {
            if !is_ascii_slice(d) {
                let w = InteroperabilityWarning::DesignationNonAscii {
                    block: block_name,
                    index,
                    designation: vstd::slice::slice_to_vec(d),
                };
                push_if(ws, true, w);
            } else {
                proof {
                    vstd::utf8::decode_utf8_encode_utf8(d@);
                }
                let len_outside = d.len() < 3 || d.len() > 6;
                push_if(ws, len_outside, InteroperabilityWarning::DesignationLengthOutsideRecommendedRange {
                    block: block_name,
                    index,
                    designation: text.clone(),
                });
                let recommended = all_designation_bytes(d);
                push_if(ws, !recommended, InteroperabilityWarning::DesignationContainsNonRecommendedAscii {
                    block: block_name,
                    index,
                    designation: text,
                });
            }
        },
        None => {
            let w = InteroperabilityWarning::DesignationNonAscii {
                block: block_name,
                index,
                designation: vstd::slice::slice_to_vec(d),
            };
            push_if(ws, true, w);
        },
    }
    assert(keys_of(ws@) =~= k0 + designation_keys(block.designations@, index as int, designation_index, r));
}

fn push_offset_warnings(
    block_name: &'static str,
    index: usize,
    offset: i32,
    ws: &mut Vec<InteroperabilityWarning>,
)
    requires
        all_name_blocks(old(ws)@),
        is_block_name(block_name@),
    ensures
        all_name_blocks(final(ws)@),
        keys_of(final(ws)@) == keys_of(old(ws)@) + offset_keys(offset, index as int, block_rank(block_name@)),
{
    let ghost k0 = keys_of(ws@);
    push_if(ws, !(-43200 <= offset && offset <= 43200),
        InteroperabilityWarning::OffsetOutsideConventionalRange { block: block_name, index, offset });
    push_if(ws, !(-89999 <= offset && offset <= 93599),
        InteroperabilityWarning::OffsetOutsideRecommendedRange { block: block_name, index, offset });
    push_if(ws, -3599 <= offset && offset <= -1,
        InteroperabilityWarning::NegativeSubHourOffset { block: block_name, index, offset });
    if offset % 60 != 0 {
        push_if(ws, true, InteroperabilityWarning::OffsetNotMultipleOfMinute { block: block_name, index, offset });
    } else if offset % 900 != 0 {
        push_if(ws, true, InteroperabilityWarning::OffsetNotMultipleOfQuarterHour { block: block_name, index, offset });
    }
    assert(keys_of(ws@) =~= k0 + offset_keys(offset, index as int, block_rank(block_name@)));
}


fn push_local_time_type_warnings(
    block_name: &'static str,
    block: &DataBlock,
    ws: &mut Vec<InteroperabilityWarning>,
)
    requires
        all_name_blocks(old(ws)@),
        is_block_name(block_name@),
    ensures
        all_name_blocks(final(ws)@),
        keys_of(final(ws)@) == keys_of(old(ws)@) + local_time_type_keys(
            block@, block_rank(block_name@), block.local_time_types@.len() as int),
{
    let ghost k0 = keys_of(ws@);
    let ghost r = block_rank(block_name@);
    let mut i: usize = 0;
    while i < block.local_time_types.len()
        invariant
            0 <= i <= block.local_time_types@.len(),
            all_name_blocks(ws@),
            keys_of(ws@) == k0 + local_time_type_keys(block@, r, i as int),
        decreases block.local_time_types@.len() - i,
    {
        let t = block.local_time_types[i];
        push_designation_warnings(block_name, block, i, t.designation_index, ws);
        push_offset_warnings(block_name, i, t.utc_offset, ws);
        assert(keys_of(ws@) =~= k0 + local_time_type_keys(block@, r, i + 1));
        i = i + 1;
    }
}

fn max_standard_offset_above(types: &Vec<LocalTimeType>, d: i32) -> (m: Option<i32>)
    ensures
        m == max_standard_above(types@, d, types@.len() as int),
{
    let mut best: Option<i32> = None;
    let mut j: usize = 0;
    while j < types.len()
        invariant
            0 <= j <= types@.len(),
            best == max_standard_above(types@, d, j as int),
        decreases types@.len() - j,
    {
        let t = types[j];
        if !t.is_dst && d < t.utc_offset {
            best = match best {
                Some(m) => Some(if t.utc_offset > m { t.utc_offset } else { m }),
                None => Some(t.utc_offset),
            };
        }
        j = j + 1;
    }
    best
}

fn push_negative_dst_warnings(
    block_name: &'static str,
    block: &DataBlock,
    ws: &mut Vec<InteroperabilityWarning>,
)
    requires
        all_name_blocks(old(ws)@),
        is_block_name(block_name@),
    ensures
        all_name_blocks(final(ws)@),
        keys_of(final(ws)@) == keys_of(old(ws)@) + negative_dst_keys(
            block.local_time_types@, block_rank(block_name@), block.local_time_types@.len() as int),
{
    let ghost k0 = keys_of(ws@);
    let ghost r = block_rank(block_name@);
    let types = &block.local_time_types;
    let mut i: usize = 0;
    while i < types.len()
        invariant
            0 <= i <= types@.len(),
            all_name_blocks(ws@),
            keys_of(ws@) == k0 + negative_dst_keys(types@, r, i as int),
        decreases types@.len() - i,
    {
        let t = types[i];
        if t.is_dst {
            match max_standard_offset_above(types, t.utc_offset) {
                Some(standard_offset) => {
                    push_if(ws, true, InteroperabilityWarning::DaylightOffsetLessThanStandardOffset {
                        block: block_name,
                        daylight_offset: t.utc_offset,
                        standard_offset,
                    });
                },
                None => {},
            }
        }
        assert(keys_of(ws@) =~= k0 + negative_dst_keys(types@, r, i + 1));
        i = i + 1;
    }
}

fn push_leap_second_offset_warnings(
    block_name: &'static str,
    block: &DataBlock,
    ws: &mut Vec<InteroperabilityWarning>,
)
    requires
        all_name_blocks(old(ws)@),
        is_block_name(block_name@),
    ensures
        all_name_blocks(final(ws)@),
        keys_of(final(ws)@) == keys_of(old(ws)@) + (if block.leap_seconds@.len() == 0 {
            seq![]
        } else {
            sub_minute_keys(block.local_time_types@, block_rank(block_name@), block.local_time_types@.len() as int)
        }),
{
    let ghost k0 = keys_of(ws@);
    let ghost r = block_rank(block_name@);
    if block.leap_seconds.len() == 0 {
        assert(keys_of(ws@) =~= k0 + Seq::<Seq<i128>>::empty());
        return;
    }
    let types = &block.local_time_types;
    let mut i: usize = 0;
    while i < types.len()
        invariant
            0 <= i <= types@.len(),
            all_name_blocks(ws@),
            keys_of(ws@) == k0 + sub_minute_keys(types@, r, i as int),
        decreases types@.len() - i,
    {
        let offset = types[i].utc_offset;
        push_if(ws, offset % 60 != 0, InteroperabilityWarning::LeapSecondWithSubMinuteOffset { block: block_name, offset });
        assert(keys_of(ws@) =~= k0 + sub_minute_keys(types@, r, i + 1));
        i = i + 1;
    }
}

fn push_unused_local_time_type_warnings(
    block_name: &'static str,
    block: &DataBlock,
    ws: &mut Vec<InteroperabilityWarning>,
)
    requires
        all_name_blocks(old(ws)@),
        is_block_name(block_name@),
    ensures
        all_name_blocks(final(ws)@),
        keys_of(final(ws)@) == keys_of(old(ws)@) + unused_type_keys(
            block@, block_rank(block_name@), block.local_time_types@.len() as int),
{
    let ghost k0 = keys_of(ws@);
    let ghost r = block_rank(block_name@);
    let n = block.local_time_types.len();
    let tt = &block.transition_types;
    let mut used: Vec<bool> = Vec::new();
    let mut i: usize = 0;
    while i < n
        invariant
            0 <= i <= n,
            used@.len() == i,
            forall|m: int| 0 <= m < i ==> #[trigger] used@[m] == (m == 0),
        decreases n - i,
    {
        used.push(i == 0);
        i = i + 1;
    }
    let mut j: usize = 0;
    while j < tt.len()
        invariant
            0 <= j <= tt@.len(),
            used@.len() == n,
            forall|m: int| 0 <= m < n ==> #[trigger] used@[m] == (m == 0
                || exists|q: int| 0 <= q < j && #[trigger] tt@[q] as int == m),
        decreases tt@.len() - j,
    {
        let t = tt[j] as usize;
        if t < n {
            used.set(t, true);
        }
        proof {
            assert forall|m: int| 0 <= m < n implies #[trigger] used@[m] == (m == 0
                || exists|q: int| 0 <= q < j + 1 && #[trigger] tt@[q] as int == m) by {
                if tt@[j as int] as int == m {
                    assert(0 <= j < j + 1 && tt@[j as int] as int == m);
                }
                if exists|q: int| 0 <= q < j + 1 && #[trigger] tt@[q] as int == m {
                    let q = choose|q: int| 0 <= q < j + 1 && #[trigger] tt@[q] as int == m;
                    if q < j {
                        assert(exists|q2: int| 0 <= q2 < j && #[trigger] tt@[q2] as int == m);
                    }
                }
            }
        }
        j = j + 1;
    }
    proof {
        assert(block@.transition_types == tt@);
        assert forall|m: int| 0 <= m < n implies #[trigger] used@[m] == type_used(block@, m) by {
            if type_used(block@, m) && m != 0 {
                let q = choose|q: int| 0 <= q < block@.transition_types.len() && #[trigger] block@.transition_types[q] as int == m;
                assert(tt@[q] as int == m);
            }
        }
        assert(keys_of(ws@) =~= k0 + unused_type_keys(block@, r, 0));
    }
    let mut i: usize = 0;
    while i < n
        invariant
            0 <= i <= n,
            used@.len() == n,
            n == block.local_time_types@.len(),
            forall|m: int| 0 <= m < n ==> #[trigger] used@[m] == type_used(block@, m),
            all_name_blocks(ws@),
            keys_of(ws@) == k0 + unused_type_keys(block@, r, i as int),
        decreases n - i,
    {
        push_if(ws, !used[i], InteroperabilityWarning::UnusedLocalTimeType { block: block_name, index: i });
        assert(keys_of(ws@) =~= k0 + unused_type_keys(block@, r, i + 1));
        i = i + 1;
    }
}


fn push_unused_designation_octet_warnings(
    block_name: &'static str,
    block: &DataBlock,
    ws: &mut Vec<InteroperabilityWarning>,
)
    requires
        all_name_blocks(old(ws)@),
        is_block_name(block_name@),
    ensures
        all_name_blocks(final(ws)@),
        keys_of(final(ws)@) == keys_of(old(ws)@) + unused_octet_keys(
            block@, block_rank(block_name@), block.designations@.len() as int),
{
    let ghost k0 = keys_of(ws@);
    let ghost r = block_rank(block_name@);
    let des = &block.designations;
    let types = &block.local_time_types;
    let n = des.len();
    let mut used: Vec<bool> = Vec::new();
    let mut i: usize = 0;
    while i < n
        invariant
            0 <= i <= n,
            used@.len() == i,
            forall|m: int| 0 <= m < i ==> !#[trigger] used@[m],
        decreases n - i,
    {
        used.push(false);
        i = i + 1;
    }
    let mut m: usize = 0;
    while m < types.len()
        invariant
            0 <= m <= types@.len(),
            used@.len() == n,
            n == des@.len(),
            forall|o: int| 0 <= o < n ==> #[trigger] used@[o] == exists|q: int| 0 <= q < m
                && designation_covers(des@, #[trigger] types@[q].designation_index as int, o),
        decreases types@.len() - m,
    {
        let start = types[m].designation_index as usize;
        let ghost before = used@;
        if start <= n {
            match designation_end(des, start) {
                Some(end) => {
                    let mut k: usize = start;
                    while k <= end
                        invariant
                            start <= k <= end + 1,
                            end < n,
                            used@.len() == n,
                            forall|o: int| 0 <= o < n ==> #[trigger] used@[o] == (before[o] || (start <= o < k)),
                        decreases end + 1 - k,
                    {
                        used.set(k, true);
                        k = k + 1;
                    }
                },
                None => {},
            }
        }
        proof {
            assert forall|o: int| 0 <= o < n implies #[trigger] used@[o] == exists|q: int| 0 <= q < m + 1
                && designation_covers(des@, #[trigger] types@[q].designation_index as int, o) by {
                if designation_covers(des@, types@[m as int].designation_index as int, o) {
                    assert(0 <= m < m + 1 && designation_covers(des@, types@[m as int].designation_index as int, o));
                }
                if exists|q: int| 0 <= q < m + 1 && designation_covers(des@, #[trigger] types@[q].designation_index as int, o) {
                    let q = choose|q: int| 0 <= q < m + 1 && designation_covers(des@, #[trigger] types@[q].designation_index as int, o);
                    if q < m {
                        assert(exists|q2: int| 0 <= q2 < m && designation_covers(des@, #[trigger] types@[q2].designation_index as int, o));
                    }
                }
            }
        }
        m = m + 1;
    }
    proof {
        assert forall|o: int| 0 <= o < n implies #[trigger] used@[o] == octet_used(block@, o) by {
            assert(block@.designations == des@ && block@.local_time_types == types@);
            if octet_used(block@, o) {
                let q = choose|q: int| 0 <= q < block@.local_time_types.len()
                    && designation_covers(block@.designations, #[trigger] block@.local_time_types[q].designation_index as int, o);
                assert(designation_covers(des@, types@[q].designation_index as int, o));
            }
            if used@[o] {
                let q = choose|q: int| 0 <= q < types@.len()
                    && designation_covers(des@, #[trigger] types@[q].designation_index as int, o);
                assert(designation_covers(block@.designations, block@.local_time_types[q].designation_index as int, o));
            }
        }
        assert(keys_of(ws@) =~= k0 + unused_octet_keys(block@, r, 0));
    }
    let mut i: usize = 0;
    while i < n
        invariant
            0 <= i <= n,
            used@.len() == n,
            n == block.designations@.len(),
            forall|o: int| 0 <= o < n ==> #[trigger] used@[o] == octet_used(block@, o),
            all_name_blocks(ws@),
            keys_of(ws@) == k0 + unused_octet_keys(block@, r, i as int),
        decreases n - i,
    {
        push_if(ws, !used[i], InteroperabilityWarning::UnusedDesignationOctet { block: block_name, index: i });
        assert(keys_of(ws@) =~= k0 + unused_octet_keys(block@, r, i + 1));
        i = i + 1;
    }
}

#[verifier::spinoff_prover]
fn push_block_warnings(
    block_name: &'static str,
    block: &DataBlock,
    sixty_four: bool,
    ws: &mut Vec<InteroperabilityWarning>,
)
    requires
        all_name_blocks(old(ws)@),
        is_block_name(block_name@),
    ensures
        all_name_blocks(final(ws)@),
        keys_of(final(ws)@) == keys_of(old(ws)@) + block_warning_keys(block@, block_name@, sixty_four),
{
    let ghost k0 = keys_of(ws@);
    let ghost r = block_rank(block_name@);
    let ghost b = block@;
    push_first_transition_warnings(block_name, block, ws);
    push_transition_warnings(block_name, block, sixty_four, ws);
    let ghost k2 = keys_of(ws@);
    assert(k2 == k0 + first_transition_keys(b, r) + transition_keys(b.transition_times, r, sixty_four, b.transition_times.len() as int));
    push_local_time_type_warnings(block_name, block, ws);
    push_negative_dst_warnings(block_name, block, ws);
    let ghost k4 = keys_of(ws@);
    assert(k4 == k2 + local_time_type_keys(b, r, b.local_time_types.len() as int)
        + negative_dst_keys(b.local_time_types, r, b.local_time_types.len() as int));
    push_leap_second_offset_warnings(block_name, block, ws);
    push_unused_local_time_type_warnings(block_name, block, ws);
    push_unused_designation_octet_warnings(block_name, block, ws);
    proof {
        let leap_part = if b.leap_seconds.len() == 0 {
            Seq::<Seq<i128>>::empty()
        } else {
            sub_minute_keys(b.local_time_types, r, b.local_time_types.len() as int)
        };
        assert(keys_of(ws@) == k4 + leap_part + unused_type_keys(b, r, b.local_time_types.len() as int)
            + unused_octet_keys(b, r, b.designations.len() as int));
        assert(keys_of(ws@) =~= k0 + block_warning_keys(b, block_name@, sixty_four));
    }
}

/// Sorts the warnings by key and drops repeated ones.
fn sort_and_dedup(raw: Vec<InteroperabilityWarning>) -> (out: Vec<InteroperabilityWarning>)
    requires
        all_name_blocks(raw@),
    ensures
        all_name_blocks(out@),
        strictly_ascending(keys_of(out@)),
        forall|k: Seq<i128>| keys_of(out@).contains(k) <==> keys_of(raw@).contains(k),
{
    let ghost all = raw@;
    let mut rest = raw;
    let mut out: Vec<InteroperabilityWarning> = Vec::new();
    proof {
        assert(all =~= rest@.subrange(0, rest@.len() as int));
    }
    while rest.len() > 0
        invariant
            rest@.len() <= all.len(),
            rest@ == all.subrange(0, rest@.len() as int),
            all_name_blocks(all),
            all_name_blocks(out@),
            strictly_ascending(keys_of(out@)),
            forall|k: Seq<i128>| (keys_of(out@).contains(k) || keys_of(rest@).contains(k)) <==> keys_of(all).contains(k),
        decreases rest@.len(),
    {
        let ghost before = rest@;
        let ghost out_before = out@;
        let popped = rest.pop();
        let w = popped.unwrap();
        proof {
            assert(w == before.last());
            assert(rest@ =~= all.subrange(0, rest@.len() as int));
            assert(names_block(w)) by {
                assert(w == all[rest@.len() as int]);
            }
        }
        insert_warning(&mut out, w);
        proof {
            assert forall|x: InteroperabilityWarning| #![trigger out@.contains(x)] out@.contains(x) implies names_block(x) by {
                if out_before.contains(x) {
                    let i = choose|i: int| 0 <= i < out_before.len() && out_before[i] == x;
                    assert(names_block(out_before[i]));
                }
            }
            assert forall|i: int| 0 <= i < out@.len() implies names_block(#[trigger] out@[i]) by {
                assert(out@.contains(out@[i]));
            }
            assert forall|k: Seq<i128>| (keys_of(out@).contains(k) || keys_of(rest@).contains(k)) <==> keys_of(all).contains(k) by {
                assert(keys_of(before) =~= keys_of(rest@).push(warning_key(w)));
                if keys_of(before).contains(k) {
                    let i = choose|i: int| 0 <= i < keys_of(before).len() && keys_of(before)[i] == k;
                    if i < rest@.len() {
                        assert(keys_of(rest@)[i] == k);
                    }
                }
                if keys_of(rest@).contains(k) {
                    let i = choose|i: int| 0 <= i < keys_of(rest@).len() && keys_of(rest@)[i] == k;
                    assert(keys_of(before)[i] == k);
                }
                if k == warning_key(w) {
                    assert(keys_of(before)[rest@.len() as int] == k);
                }
            }
        }
    }
    proof {
        assert(keys_of(rest@) =~= Seq::<Seq<i128>>::empty());
    }
    out
}

impl TzifFile {
    /// The interoperability warnings of RFC 9636 Appendix A that apply to this file,
    /// sorted and without repeats; an error when the file is not valid.
    pub fn interoperability_warnings(&self) -> (res: Result<Vec<InteroperabilityWarning>, TzifError>)
        ensures
            res is Ok <==> is_valid_file(self@),
            res matches Err(e) ==> spec_validate_file(self@) matches Err(x) && agrees(e, x),
            res matches Ok(ws) ==> {
                &&& all_name_blocks(ws@)
                &&& strictly_ascending(keys_of(ws@))
                &&& forall|k: Seq<i128>| keys_of(ws@).contains(k) <==> spec_warning_keys(self@).contains(k)
            },
    {
        match validate_file(self) {
            Ok(()) => {},
            Err(e) => return Err(e),
        }
        let mut warnings: Vec<InteroperabilityWarning> = Vec::new();
        proof {
            reveal_strlit("v1");
            reveal_strlit("v2_plus");
            assert(keys_of(warnings@) =~= Seq::<Seq<i128>>::empty());
        }
        push_file_warnings(self, &mut warnings);
        push_block_warnings("v1", &self.v1, false, &mut warnings);
        let ghost k1 = keys_of(warnings@);
        match &self.v2_plus {
            Some(block) => {
                push_block_warnings("v2_plus", block, true, &mut warnings);
            },
            None => {
                assert(keys_of(warnings@) =~= k1 + Seq::<Seq<i128>>::empty());
            },
        }
        assert(keys_of(warnings@) =~= spec_warning_keys(self@));
        Ok(sort_and_dedup(warnings))
    }
}

} // verus!
