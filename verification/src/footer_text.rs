use vstd::prelude::*;

use crate::builder::{
    abs_int, bad_designation_char, decimal, duration_text, posix_designation_text, spec_validate_designation,
    spec_validate_posix_offset, two_digits,
};
use crate::common::first_index;
use crate::footer::{
    extension_part, is_close_angle, is_control_byte, spec_footer_consistent, spec_parse_designation, spec_parse_footer,
    spec_parse_number, spec_parse_time_like, spec_validate_footer, FooterTypeView, FooterView,
};
use crate::model::{BlockView, Version};
use crate::interop::is_ascii_bytes;
use crate::text::{alpha_end, dec_value, digit_end, is_alpha, is_digit};
use crate::builder::fixed_offset_block;
use crate::common::TimeSize;
use crate::validate::{
    has_local_time_type_error, is_designation_byte, is_nul, is_rfc_designation, is_valid_wire_designation,
    local_time_type_error, spec_designation_at, spec_validate_block,
};

verus! {

// ---------------------------------------------------------------------------
// The text that the builders write is read back by the footer grammar.
// ---------------------------------------------------------------------------

/// The decimal digits of `n` are digits, at least one, and read back as `n`.
pub proof fn lemma_decimal_reads_back(n: nat)
    ensures
        decimal(n).len() >= 1,
        forall|i: int| 0 <= i < decimal(n).len() ==> #[trigger] is_digit(decimal(n)[i]),
        dec_value(decimal(n)) == n,
    decreases n,
{
    if n >= 10 {
        lemma_decimal_reads_back(n / 10);
        crate::text::lemma_dec_value_push(decimal(n / 10), (0x30 + n % 10) as u8);
        let s = decimal(n);
        let p = decimal(n / 10);
        assert forall|i: int| 0 <= i < s.len() implies #[trigger] is_digit(s[i]) by {
            if i < p.len() {
                assert(s[i] == p[i]);
            }
        }
    } else {
        assert(dec_value(decimal(n)) == dec_value(decimal(n).drop_last()) * 10 + (decimal(n).last() - 0x30));
        assert(decimal(n).drop_last() =~= Seq::<u8>::empty());
    }
}

/// A run of digits `s` at `p` in `b`, followed by the end or by a non-digit, ends where
/// `s` ends.
pub proof fn lemma_digit_run(b: Seq<u8>, p: int, s: Seq<u8>)
    requires
        0 <= p,
        p + s.len() <= b.len(),
        b.subrange(p, p + s.len()) == s,
        forall|i: int| 0 <= i < s.len() ==> #[trigger] is_digit(s[i]),
        p + s.len() == b.len() || !is_digit(b[p + s.len()]),
    ensures
        digit_end(b, p) == p + s.len(),
    decreases s.len(),
{
    if s.len() > 0 {
        assert(b[p] == s[0]);
        assert(b.subrange(p + 1, p + s.len()) =~= s.drop_first());
        lemma_digit_run(b, p + 1, s.drop_first());
    }
}

/// Reading a number whose digits are `s`.
pub proof fn lemma_parse_number_run(b: Seq<u8>, p: int, s: Seq<u8>)
    requires
        0 <= p,
        s.len() >= 1,
        p + s.len() <= b.len(),
        b.subrange(p, p + s.len()) == s,
        forall|i: int| 0 <= i < s.len() ==> #[trigger] is_digit(s[i]),
        p + s.len() == b.len() || !is_digit(b[p + s.len()]),
        dec_value(s) <= u32::MAX,
    ensures
        spec_parse_number(b, p) == Some((dec_value(s), p + s.len())),
{
    lemma_digit_run(b, p, s);
}

/// Two digits read back as the number below 100 they write.
pub proof fn lemma_two_digits(n: nat)
    requires
        n < 100,
    ensures
        two_digits(n).len() == 2,
        is_digit(two_digits(n)[0]) && is_digit(two_digits(n)[1]),
        dec_value(two_digits(n)) == n,
{
    let t = two_digits(n);
    let first = t.drop_last();
    assert(first =~= seq![(0x30 + n / 10) as u8]);
    assert(first.drop_last() =~= Seq::<u8>::empty());
    assert(dec_value(first) == dec_value(first.drop_last()) * 10 + (first.last() - 0x30));
    assert(dec_value(first) == n / 10);
    assert(dec_value(t) == dec_value(first) * 10 + (t.last() - 0x30));
}

/// The hours, minutes and seconds of a duration of at most 24:59:59 make it up again.
proof fn lemma_hms_parts(a: nat)
    ensures
        a == (a / 3600) * 3600 + ((a % 3600) / 60) * 60 + a % 60,
        (a % 3600) / 60 < 60,
        a % 60 < 60,
        a <= 89999 ==> a / 3600 <= 24,
{
    let h = a / 3600;
    let r = a % 3600;
    assert(a == h * 3600 + r);
    let m = r / 60;
    let s = r % 60;
    assert(r == m * 60 + s);
    assert(a % 60 == s) by {
        assert(a == (h * 60 + m) * 60 + s);
        vstd::arithmetic::div_mod::lemma_mod_multiples_vanish((h * 60 + m) as int, s as int, 60);
    }
}

/// A duration of at most 24:59:59 written by `duration_text` and ending the input is
/// read back as the same number of seconds.
#[verifier::spinoff_prover]
#[verifier::rlimit(60)]
pub proof fn lemma_duration_reads_back(b: Seq<u8>, p: int, x: int)
    requires
        -89999 <= x <= 89999,
        0 <= p,
        p + duration_text(x).len() == b.len(),
        b.subrange(p, b.len() as int) == duration_text(x),
    ensures
        spec_parse_time_like(b, p, false) == Some((x, b.len() as int)),
{
    let a = abs_int(x);
    let h = a / 3600;
    let m = (a % 3600) / 60;
    let s = a % 60;
    lemma_hms_parts(a);
    lemma_decimal_reads_back(h);
    let sign: Seq<u8> = if x < 0 { seq![0x2du8] } else { seq![] };
    let p0 = p + sign.len();
    let dh = decimal(h);
    let t = duration_text(x);
    assert forall|i: int| 0 <= i < t.len() implies b[p + i] == #[trigger] t[i] by {
        assert(b.subrange(p, b.len() as int)[i] == b[p + i]);
    }
    assert(t.subrange(0, sign.len() as int) =~= sign) by {
        if s != 0 {
            assert(t =~= sign + dh + seq![0x3au8] + two_digits(m) + seq![0x3au8] + two_digits(s));
        } else if m != 0 {
            assert(t =~= sign + dh + seq![0x3au8] + two_digits(m));
        } else {
            assert(t =~= sign + dh);
        }
    }
    assert(t.subrange(sign.len() as int, (sign.len() + dh.len()) as int) =~= dh) by {
        if s != 0 {
            assert(t =~= sign + dh + seq![0x3au8] + two_digits(m) + seq![0x3au8] + two_digits(s));
        } else if m != 0 {
            assert(t =~= sign + dh + seq![0x3au8] + two_digits(m));
        } else {
            assert(t =~= sign + dh);
        }
    }
    if x < 0 {
        assert(b[p] == t[0]);
    } else {
        assert(is_digit(dh[0]));
        assert(t[0] == dh[0]);
        assert(b[p] == t[0]);
    }
    assert(b.subrange(p0, p0 + dh.len()) =~= dh) by {
        assert forall|i: int| 0 <= i < dh.len() implies b.subrange(p0, p0 + dh.len())[i] == dh[i] by {
            assert(t.subrange(sign.len() as int, (sign.len() + dh.len()) as int)[i] == t[sign.len() as int + i]);
            assert(b[p + sign.len() as int + i] == t[sign.len() as int + i]);
        }
    }
    if s != 0 {
        let tm = two_digits(m);
        let ts = two_digits(s);
        assert(t =~= sign + dh + seq![0x3au8] + tm + seq![0x3au8] + ts);
        let p1 = p0 + dh.len();
        let q1: int = (sign.len() + dh.len()) as int;
        assert(t[q1] == 0x3a);
        assert(b[p + q1] == t[q1]);
        lemma_parse_number_run(b, p0, dh);
        assert(t[q1 + 1] == tm[0] && t[q1 + 2] == tm[1]);
        assert(b[p + q1 + 1] == t[q1 + 1] && b[p + q1 + 2] == t[q1 + 2]);
        assert(b.subrange(p1 + 1, p1 + 3) =~= tm);
        lemma_two_digits(m);
        assert(t[q1 + 3] == 0x3a);
        assert(b[p + q1 + 3] == t[q1 + 3]);
        lemma_parse_number_run(b, p1 + 1, tm);
        assert(t[q1 + 4] == ts[0] && t[q1 + 5] == ts[1]);
        assert(b[p + q1 + 4] == t[q1 + 4] && b[p + q1 + 5] == t[q1 + 5]);
        assert(b.subrange(p1 + 4, p1 + 6) =~= ts);
        lemma_two_digits(s);
        lemma_parse_number_run(b, p1 + 4, ts);
    } else if m != 0 {
        let tm = two_digits(m);
        assert(t =~= sign + dh + seq![0x3au8] + tm);
        let p1 = p0 + dh.len();
        let q1: int = (sign.len() + dh.len()) as int;
        assert(t[q1] == 0x3a);
        assert(b[p + q1] == t[q1]);
        lemma_parse_number_run(b, p0, dh);
        assert(t[q1 + 1] == tm[0] && t[q1 + 2] == tm[1]);
        assert(b[p + q1 + 1] == t[q1 + 1] && b[p + q1 + 2] == t[q1 + 2]);
        assert(b.subrange(p1 + 1, p1 + 3) =~= tm);
        lemma_two_digits(m);
        lemma_parse_number_run(b, p1 + 1, tm);
    } else {
        assert(t =~= sign + dh);
        lemma_parse_number_run(b, p0, dh);
    }
}


/// A run of letters `s` at `p` in `b`, followed by the end or by a non-letter, ends
/// where `s` ends.
pub proof fn lemma_alpha_run(b: Seq<u8>, p: int, s: Seq<u8>)
    requires
        0 <= p,
        p + s.len() <= b.len(),
        b.subrange(p, p + s.len()) == s,
        forall|i: int| 0 <= i < s.len() ==> #[trigger] is_alpha(s[i]),
        p + s.len() == b.len() || !is_alpha(b[p + s.len()]),
    ensures
        alpha_end(b, p) == p + s.len(),
    decreases s.len(),
{
    if s.len() > 0 {
        assert(b[p] == s[0]);
        assert(b.subrange(p + 1, p + s.len()) =~= s.drop_first());
        lemma_alpha_run(b, p + 1, s.drop_first());
    }
}

pub proof fn lemma_first_index_is(p: spec_fn(int) -> bool, lo: int, hi: int, e: int)
    requires
        lo <= e < hi,
        p(e),
        forall|j: int| lo <= j < e ==> !#[trigger] p(j),
    ensures
        first_index(p, lo, hi) == Some(e),
    decreases e - lo,
{
    if lo < e {
        lemma_first_index_is(p, lo + 1, hi, e);
    }
}

/// A designation written by `posix_designation_text`, followed by the end or by a
/// non-letter, is read back as the same designation.
pub proof fn lemma_designation_reads_back(b: Seq<u8>, d: Seq<u8>)
    requires
        is_rfc_designation(d),
        posix_designation_text(d).len() <= b.len(),
        b.subrange(0, posix_designation_text(d).len() as int) == posix_designation_text(d),
        posix_designation_text(d).len() == b.len() || !is_alpha(b[posix_designation_text(d).len() as int]),
    ensures
        spec_parse_designation(b, 0) == Some((d, posix_designation_text(d).len() as int)),
{
    let t = posix_designation_text(d);
    assert forall|i: int| 0 <= i < t.len() implies b[i] == #[trigger] t[i] by {
        assert(b.subrange(0, t.len() as int)[i] == b[i]);
    }
    if forall|i: int| 0 <= i < d.len() ==> #[trigger] is_alpha(d[i]) {
        assert(t == d);
        assert(is_alpha(d[0]));
        assert(b[0] == d[0]);
        lemma_alpha_run(b, 0, d);
        assert(b.subrange(0, d.len() as int) =~= d);
    } else {
        assert(t =~= seq![0x3cu8] + d + seq![0x3eu8]);
        assert(t[0] == 0x3c);
        assert(b[0] == t[0]);
        let q: int = d.len() + 1int;
        assert(b[q] == t[q]);
        assert forall|j: int| 1 <= j < q implies !#[trigger] is_close_angle(b)(j) by {
            assert(b[j] == t[j]);
            assert(t[j] == d[j - 1]);
            assert(is_designation_byte(d[j - 1]));
        }
        lemma_first_index_is(is_close_angle(b), 1, b.len() as int, q);
        assert(b.subrange(1, q) =~= d) by {
            assert forall|j: int| 0 <= j < d.len() implies b.subrange(1, q)[j] == d[j] by {
                assert(b[j + 1] == t[j + 1]);
            }
        }
    }
}

/// The bytes that the builders write into a POSIX TZ string.
pub open spec fn is_tz_text_byte(x: u8) -> bool {
    is_designation_byte(x) || x == 0x3c || x == 0x3e || x == 0x3a
}

pub open spec fn is_tz_text(t: Seq<u8>) -> bool {
    forall|i: int| 0 <= i < t.len() ==> #[trigger] is_tz_text_byte(t[i])
}

pub proof fn lemma_duration_text_bytes(x: int)
    ensures
        is_tz_text(duration_text(x)),
        duration_text(x).len() >= 1,
        is_digit(duration_text(x)[0]) || duration_text(x)[0] == 0x2d,
{
    let a = abs_int(x);
    lemma_hms_parts(a);
    lemma_decimal_reads_back(a / 3600);
    lemma_two_digits((a % 3600) / 60);
    lemma_two_digits(a % 60);
    let t = duration_text(x);
    let sign: Seq<u8> = if x < 0 { seq![0x2du8] } else { seq![] };
    let dh = decimal(a / 3600);
    let tm = two_digits((a % 3600) / 60);
    let ts = two_digits(a % 60);
    assert forall|i: int| 0 <= i < dh.len() implies #[trigger] is_tz_text_byte(dh[i]) by {
        assert(is_digit(dh[i]));
    }
    assert(is_tz_text(tm) && is_tz_text(ts));
    assert(is_tz_text(sign));
    let colon: Seq<u8> = seq![0x3au8];
    assert(is_tz_text(colon));
    if a % 60 != 0 {
        assert(t =~= sign + dh + colon + tm + colon + ts);
    } else if (a % 3600) / 60 != 0 {
        assert(t =~= sign + dh + colon + tm);
    } else {
        assert(t =~= sign + dh);
    }
    assert forall|i: int| 0 <= i < t.len() implies #[trigger] is_tz_text_byte(t[i]) by {
        if a % 60 != 0 {
            assert(t =~= sign + dh + colon + tm + colon + ts);
        } else if (a % 3600) / 60 != 0 {
            assert(t =~= sign + dh + colon + tm);
        } else {
            assert(t =~= sign + dh);
        }
    }
    if x >= 0 {
        assert(t[0] == dh[0]);
    }
}

pub proof fn lemma_designation_text_bytes(d: Seq<u8>)
    requires
        forall|i: int| 0 <= i < d.len() ==> #[trigger] is_designation_byte(d[i]),
    ensures
        is_tz_text(posix_designation_text(d)),
{
    let t = posix_designation_text(d);
    if !(forall|i: int| 0 <= i < d.len() ==> #[trigger] is_alpha(d[i])) {
        assert(t =~= seq![0x3cu8] + d + seq![0x3eu8]);
        assert forall|i: int| 0 <= i < t.len() implies #[trigger] is_tz_text_byte(t[i]) by {
            if 0 < i < t.len() - 1 {
                assert(t[i] == d[i - 1]);
            }
        }
    }
}

/// ASCII bytes decode to ASCII characters, and encode back to themselves.
pub proof fn lemma_decode_ascii(b: Seq<u8>)
    requires
        is_ascii_bytes(b),
    ensures
        vstd::utf8::valid_utf8(b),
        vstd::utf8::is_ascii_chars(vstd::utf8::decode_utf8(b)),
        vstd::utf8::encode_utf8(vstd::utf8::decode_utf8(b)) == b,
    decreases b.len(),
{
    crate::text::lemma_ascii_valid_utf8(b);
    vstd::utf8::decode_utf8_encode_utf8(b);
    if b.len() > 0 {
        let rest = vstd::utf8::pop_first_scalar(b);
        assert(rest =~= b.subrange(1, b.len() as int));
        assert(is_ascii_bytes(rest)) by {
            assert forall|k: int| 0 <= k < rest.len() implies #[trigger] rest[k] < 0x80 by {
                assert(rest[k] == b[k + 1]);
            }
        }
        lemma_decode_ascii(rest);
        let x = b[0];
        assert(x < 0x80);
        let c = vstd::utf8::decode_first_scalar(b);
        assert(c == ((x & 0x7f) as u32));
        assert((x & 0x7f) <= 0x7f) by (bit_vector);
        let chars = vstd::utf8::decode_utf8(b);
        assert(chars =~= seq![c as char] + vstd::utf8::decode_utf8(rest));
        assert forall|i: int| 0 <= i < chars.len() implies '\0' <= #[trigger] chars[i] <= '\u{7f}' by {
            if i > 0 {
                assert(chars[i] == vstd::utf8::decode_utf8(rest)[i - 1]);
            }
        }
    }
}


/// The bytes of a designation that the builders accept are an RFC 9636 designation.
pub proof fn lemma_valid_designation_bytes(d: Seq<char>)
    requires
        spec_validate_designation(d, true) is Ok,
    ensures
        is_rfc_designation(vstd::utf8::encode_utf8(d)),
        is_ascii_bytes(vstd::utf8::encode_utf8(d)),
{
    let e = vstd::utf8::encode_utf8(d);
    vstd::utf8::is_ascii_chars_encode_utf8(d);
    crate::common::lemma_first_index(bad_designation_char(d), 0, d.len() as int);
    assert forall|k: int| 0 <= k < e.len() implies #[trigger] is_designation_byte(e[k]) by {
        assert(!bad_designation_char(d)(k));
        assert(d[k] as u8 == e[k]);
    }
    assert forall|k: int| 0 <= k < e.len() implies #[trigger] e[k] < 0x80 by {
        assert(d[k] as u8 == e[k]);
        assert(is_designation_byte(e[k]));
    }
}

/// No byte of builder text is a NUL, a newline or a slash.
proof fn lemma_tz_text_plain(t: Seq<u8>)
    requires
        is_tz_text(t),
    ensures
        is_ascii_bytes(t),
        first_index(is_control_byte(t), 0, t.len() as int) is None,
        first_index(extension_part(t), 0, t.len() as int) is None,
{
    assert forall|k: int| 0 <= k < t.len() implies #[trigger] t[k] < 0x80 by {
        assert(is_tz_text_byte(t[k]));
    }
    crate::common::lemma_first_index(is_control_byte(t), 0, t.len() as int);
    if first_index(is_control_byte(t), 0, t.len() as int) is Some {
        let k = first_index(is_control_byte(t), 0, t.len() as int).unwrap();
        assert(is_tz_text_byte(t[k]));
    }
    crate::common::lemma_first_index(extension_part(t), 0, t.len() as int);
    if first_index(extension_part(t), 0, t.len() as int) is Some {
        let k = first_index(extension_part(t), 0, t.len() as int).unwrap();
        assert(is_tz_text_byte(t[k]));
    }
}

/// The footer that a fixed-offset builder writes, `<designation><offset>`, is a valid
/// footer for a block without transitions.
#[verifier::spinoff_prover]
#[verifier::rlimit(60)]
pub proof fn lemma_fixed_offset_footer_valid(version: Version, block: BlockView, d: Seq<char>, o: i32)
    requires
        spec_validate_designation(d, true) is Ok,
        spec_validate_posix_offset(o) is Ok,
        block.transition_times.len() == 0,
    ensures
        spec_validate_footer(
            version,
            block,
            vstd::utf8::decode_utf8(posix_designation_text(vstd::utf8::encode_utf8(d)) + duration_text(-(o as int))),
        ) is Ok,
{
    let e = vstd::utf8::encode_utf8(d);
    lemma_valid_designation_bytes(d);
    let pd = posix_designation_text(e);
    let dt = duration_text(-(o as int));
    let text = pd + dt;
    lemma_designation_text_bytes(e);
    lemma_duration_text_bytes(-(o as int));
    assert(is_tz_text(text)) by {
        assert forall|i: int| 0 <= i < text.len() implies #[trigger] is_tz_text_byte(text[i]) by {
            if i < pd.len() {
                assert(text[i] == pd[i]);
            } else {
                assert(text[i] == dt[i - pd.len()]);
            }
        }
    }
    lemma_tz_text_plain(text);
    lemma_decode_ascii(text);
    let footer = vstd::utf8::decode_utf8(text);
    assert(vstd::utf8::encode_utf8(footer) == text);
    let k = pd.len() as int;
    assert(text.subrange(0, k) =~= pd);
    assert(text[k] == dt[0]);
    lemma_designation_reads_back(text, e);
    assert(text.subrange(k, text.len() as int) =~= dt);
    lemma_duration_reads_back(text, k, -(o as int));
    reveal(spec_parse_footer);
    reveal(spec_footer_consistent);
    assert(spec_parse_footer(version, text) == Some(Some(FooterView {
        standard: FooterTypeView { designation: e, offset_seconds: o as int, is_dst: false },
        daylight: None,
        start: None,
        end: None,
    })));
}


/// The block of a fixed-offset zone is a valid block of either width in any version.
#[verifier::spinoff_prover]
#[verifier::rlimit(60)]
pub proof fn lemma_fixed_offset_block_valid(d: Seq<char>, o: i32, time_size: TimeSize, version: Version)
    requires
        spec_validate_designation(d, true) is Ok,
        o != i32::MIN,
    ensures
        spec_validate_block(fixed_offset_block(d, o), time_size, version) is Ok,
{
    let block = fixed_offset_block(d, o);
    let e = vstd::utf8::encode_utf8(d);
    lemma_valid_designation_bytes(d);
    let des = block.designations;
    assert(des =~= e + seq![0u8]);
    assert forall|j: int| 0 <= j < e.len() implies !#[trigger] is_nul(des)(j) by {
        assert(des[j] == e[j]);
        assert(is_designation_byte(e[j]));
    }
    lemma_first_index_is(is_nul(des), 0, des.len() as int, e.len() as int);
    assert(des.subrange(0, e.len() as int) =~= e);
    assert(spec_designation_at(des, 0) == Some(e));
    assert(is_valid_wire_designation(block, e));
    assert(local_time_type_error(block, 0) is None);
    crate::common::lemma_first_index(has_local_time_type_error(block), 0, 1);
    reveal(spec_validate_block);
}

} // verus!
