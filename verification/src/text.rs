use vstd::prelude::*;

verus! {

pub open spec fn is_digit(b: u8) -> bool {
    0x30 <= b <= 0x39
}

pub open spec fn is_alpha(b: u8) -> bool {
    (0x41 <= b <= 0x5a) || (0x61 <= b <= 0x7a)
}

/// The value of a string of ASCII decimal digits.
pub open spec fn dec_value(s: Seq<u8>) -> int
    decreases s.len(),
{
    if s.len() == 0 {
        0
    } else {
        dec_value(s.drop_last()) * 10 + (s.last() - 0x30)
    }
}

/// End of the run of digits that starts at `k`.
pub open spec fn digit_end(b: Seq<u8>, k: int) -> int
    decreases b.len() - k,
{
    if 0 <= k < b.len() && is_digit(b[k]) {
        digit_end(b, k + 1)
    } else {
        k
    }
}

/// End of the run of ASCII letters that starts at `k`.
pub open spec fn alpha_end(b: Seq<u8>, k: int) -> int
    decreases b.len() - k,
{
    if 0 <= k < b.len() && is_alpha(b[k]) {
        alpha_end(b, k + 1)
    } else {
        k
    }
}

pub proof fn lemma_dec_value_push(s: Seq<u8>, d: u8)
    ensures
        dec_value(s.push(d)) == dec_value(s) * 10 + (d - 0x30),
{
    assert(s.push(d).drop_last() =~= s);
}

pub proof fn lemma_digit_end_bounds(b: Seq<u8>, k: int)
    requires
        0 <= k <= b.len(),
    ensures
        k <= digit_end(b, k) <= b.len(),
        forall|j: int| k <= j < digit_end(b, k) ==> #[trigger] is_digit(b[j]),
    decreases b.len() - k,
{
    if k < b.len() && is_digit(b[k]) {
        lemma_digit_end_bounds(b, k + 1);
    }
}

pub proof fn lemma_dec_value_nonneg(s: Seq<u8>)
    requires
        forall|j: int| 0 <= j < s.len() ==> #[trigger] is_digit(s[j]),
    ensures
        dec_value(s) >= 0,
    decreases s.len(),
{
    if s.len() > 0 {
        assert(is_digit(s[s.len() - 1]));
        assert forall|j: int| 0 <= j < s.drop_last().len() implies #[trigger] is_digit(s.drop_last()[j]) by {
            assert(is_digit(s[j]));
        }
        lemma_dec_value_nonneg(s.drop_last());
    }
}

/// Reads the run of digits at `start`: its end, and its value when that is at most `u32::MAX`.
pub fn read_digits(b: &[u8], start: usize) -> (res: (usize, Option<u32>))
    requires
        start <= b@.len(),
    ensures
        res.0 == digit_end(b@, start as int),
        start <= res.0 <= b@.len(),
        match res.1 {
            Some(v) => v == dec_value(b@.subrange(start as int, res.0 as int)),
            None => dec_value(b@.subrange(start as int, res.0 as int)) > u32::MAX,
        },
{
    let mut k = start;
    let mut acc: u64 = 0;
    let mut over = false;
    proof {
        assert(b@.subrange(start as int, start as int) =~= Seq::<u8>::empty());
    }
    while k < b.len() && 0x30 <= b[k] && b[k] <= 0x39
        invariant
            start <= k <= b@.len(),
            digit_end(b@, start as int) == digit_end(b@, k as int),
            forall|j: int| start <= j < k ==> #[trigger] is_digit(b@[j]),
            !over ==> acc == dec_value(b@.subrange(start as int, k as int)) && acc <= u32::MAX,
            over ==> dec_value(b@.subrange(start as int, k as int)) > u32::MAX,
        decreases b@.len() - k,
    {
        let d = b[k];
        proof {
            let s = b@.subrange(start as int, k as int);
            assert(b@.subrange(start as int, k + 1) =~= s.push(d));
            lemma_dec_value_push(s, d);
            lemma_dec_value_nonneg(s);
        }
        if !over {
            let next = acc * 10 + (d - 0x30) as u64;
            if next > u32::MAX as u64 {
                over = true;
            } else {
                acc = next;
            }
        }
        k = k + 1;
    }
    if over {
        (k, None)
    } else {
        (k, Some(acc as u32))
    }
}

} // verus!

verus! {

/// Decodes UTF-8 by calling `String::from_utf8`. As its documentation states, it
/// succeeds exactly when the bytes are valid UTF-8, and the string then holds the
/// characters that the bytes encode.
#[verifier::external_body]
pub(crate) fn utf8_string(bytes: Vec<u8>) -> (res: Option<String>)
    ensures
        res is Some <==> vstd::utf8::valid_utf8(bytes@),
        res matches Some(s) ==> s@ == vstd::utf8::decode_utf8(bytes@),
{
    String::from_utf8(bytes).ok()
}


/// Whether two strings hold the same characters.
pub fn str_equal(a: &str, b: &str) -> (r: bool)
    ensures
        r == (a@ == b@),
{
    let r = crate::footer::bytes_equal(a.as_bytes(), b.as_bytes());
    proof {
        vstd::utf8::encode_utf8_decode_utf8(a@);
        vstd::utf8::encode_utf8_decode_utf8(b@);
    }
    r
}
} // verus!

verus! {

/// Whether a string holds no characters.
pub fn str_is_empty(s: &str) -> (r: bool)
    ensures
        r == (s@.len() == 0),
{
    let r = s.as_bytes().len() == 0;
    proof {
        vstd::utf8::encode_utf8_decode_utf8(s@);
        if r {
            assert(vstd::utf8::encode_utf8(s@) =~= Seq::<u8>::empty());
            assert(vstd::utf8::decode_utf8(Seq::<u8>::empty()) =~= Seq::<char>::empty());
        }
    }
    r
}

} // verus!

verus! {

/// Bytes below 0x80 are valid UTF-8.
pub proof fn lemma_ascii_valid_utf8(b: Seq<u8>)
    requires
        crate::interop::is_ascii_bytes(b),
    ensures
        vstd::utf8::valid_utf8(b),
{
    assert forall|i: int| 0 <= 0 <= i < b.len() <= b.len() implies #[trigger] vstd::utf8::is_leading_byte_width_1(b[i]) by {
        assert(b[i] < 0x80);
    }
    assert(b.subrange(0, 0) =~= Seq::<u8>::empty());
    vstd::utf8::partial_valid_utf8_extend_ascii_block(b, 0, b.len() as int);
    assert(b.subrange(0, b.len() as int) =~= b);
}

/// The string whose UTF-8 encoding is `bytes`, all of which are ASCII.
pub fn ascii_string(bytes: Vec<u8>) -> (s: String)
    requires
        crate::interop::is_ascii_bytes(bytes@),
    ensures
        s@ == vstd::utf8::decode_utf8(bytes@),
        vstd::utf8::encode_utf8(s@) == bytes@,
{
    proof {
        lemma_ascii_valid_utf8(bytes@);
        vstd::utf8::decode_utf8_encode_utf8(bytes@);
    }
    match utf8_string(bytes) {
        Some(s) => s,
        None => {
            assert(false);
            String::new()
        },
    }
}

} // verus!
