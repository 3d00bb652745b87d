use vstd::prelude::*;
use vstd::string::StrSliceExecFns;
use vstd::string::StringSliceAdditionalSpecFns;
use vstd::utf8::decode_utf8;
use vstd::utf8::encode_utf8;
use vstd::utf8::is_ascii_chars;
use vstd::utf8::valid_utf8;

use crate::git_object::{object_type_of_token, object_type_token, ObjectTypes};

verus! {

/// Errors of the loose-object codec, one per decoding step that can fail.
#[derive(Debug, PartialEq, Eq, Structural, Clone, Copy)]
pub enum CompressedGitObjectError {
    /// The compressed buffer is not a well-formed zlib stream.
    InvalidZlibData,
    /// The inflated buffer holds no NUL delimiter between header and content.
    NullCharacterNotFound,
    /// The header bytes before the NUL delimiter are not well-formed UTF-8.
    EncodingError,
    /// The header has fewer than two tokens, or its length token is not a
    /// decimal number that fits in 64 bits.
    InvalidHeader,
    /// The header's first token names no known object kind.
    InvalidTypeName,
    /// The declared length in the header differs from the content's size.
    LengthMismatch,
}

/// What zlib inflation yields on a given buffer: the fully inflated bytes, or
/// nothing when the buffer is not a well-formed zlib stream. The result
/// depends on the buffer's bytes alone.
pub uninterp spec fn inflate_of(compressed: Seq<u8>) -> Option<Seq<u8>>;

/// Relies on flate2's `ZlibDecoder` driven by std's `read_to_end`: fully
/// inflating an in-memory buffer is a function of its bytes alone, and fails
/// exactly when the buffer is not a well-formed zlib stream.
#[verifier::external_body]
pub fn inflate(value: &Vec<u8>) -> (r: Result<Vec<u8>, CompressedGitObjectError>)
    ensures
        match r {
            Ok(v) => inflate_of(value@) == Some(v@),
            Err(e) => inflate_of(value@) is None && e == CompressedGitObjectError::InvalidZlibData,
        },
{
    let mut d = flate2::read::ZlibDecoder::new(value.as_slice());
    let mut ret: Vec<u8> = Vec::new();
    match std::io::Read::read_to_end(&mut d, &mut ret) {
        Ok(_) => Ok(ret),
        Err(_) => Err(CompressedGitObjectError::InvalidZlibData),
    }
}

/// Relies on std's `str::from_utf8`: it succeeds exactly on well-formed UTF-8
/// and returns the text made of exactly the given bytes.
#[verifier::external_body]
fn bytes_as_str(b: &[u8]) -> (r: Option<&str>)
    ensures
        r is Some <==> valid_utf8(b@),
        r matches Some(s) ==> s.spec_bytes() == b@,
{
    core::str::from_utf8(b).ok()
}

/// Index of the first NUL byte at or after `i`, if any.
pub open spec fn find_null_from(b: Seq<u8>, i: int) -> Option<int>
    decreases b.len() - i
        when 0 <= i <= b.len()
{
    if i >= b.len() {
        None
    } else if b[i] == 0u8 {
        Some(i)
    } else {
        find_null_from(b, i + 1)
    }
}

/// The found position is in range, holds a NUL, and nothing before it does;
/// absence means no NUL at all.
pub proof fn lemma_find_null_from(b: Seq<u8>, i: int)
    requires
        0 <= i <= b.len(),
    ensures
        match find_null_from(b, i) {
            Some(p) => i <= p < b.len() && b[p] == 0u8 && (forall|j: int|
                i <= j < p ==> b[j] != 0u8),
            None => forall|j: int| i <= j < b.len() ==> b[j] != 0u8,
        },
    decreases b.len() - i,
{
    if i < b.len() && b[i] != 0u8 {
        lemma_find_null_from(b, i + 1);
    }
}

/// Position of the first NUL byte; its absence is a decoding error.
pub fn find_null_pos(content: &Vec<u8>) -> (r: Result<usize, CompressedGitObjectError>)
    ensures
        match find_null_from(content@, 0) {
            Some(p) => r matches Ok(u) && u as int == p,
            None => r matches Err(e) && e == CompressedGitObjectError::NullCharacterNotFound,
        },
{
    let mut i: usize = 0;
    while i < content.len()
        invariant
            0 <= i <= content@.len(),
            find_null_from(content@, 0) == find_null_from(content@, i as int),
        decreases content@.len() - i,
    {
        if content[i] == 0u8 {
            return Ok(i);
        }
        i += 1;
    }
    Err(CompressedGitObjectError::NullCharacterNotFound)
}

/// What splitting an inflated buffer at its first NUL yields: the decoded
/// header text and the content bytes strictly after the NUL.
pub open spec fn split_object_spec(b: Seq<u8>) -> Result<
    (Seq<char>, Seq<u8>),
    CompressedGitObjectError,
> {
    match find_null_from(b, 0) {
        None => Err(CompressedGitObjectError::NullCharacterNotFound),
        Some(p) => {
            let header_bytes = b.subrange(0, p);
            if valid_utf8(header_bytes) {
                Ok((decode_utf8(header_bytes), b.subrange(p + 1, b.len() as int)))
            } else {
                Err(CompressedGitObjectError::EncodingError)
            }
        },
    }
}

/// Splits an inflated buffer at its first NUL into header text and content
/// bytes; the NUL itself is discarded.
pub fn split_object(value: &Vec<u8>) -> (r: Result<
    (String, Vec<u8>),
    CompressedGitObjectError,
>)
    ensures
        match split_object_spec(value@) {
            Ok(hc) => r matches Ok(p) && p.0@ == hc.0 && p.1@ == hc.1,
            Err(e) => r matches Err(e2) && e2 == e,
        },
{
    proof {
        lemma_find_null_from(value@, 0);
    }
    let pos = match find_null_pos(value) {
        Ok(p) => p,
        Err(e) => {
            return Err(e);
        },
    };
    let (header_slice, rest) = value.as_slice().split_at(pos);
    let content_slice = vstd::slice::slice_subrange(rest, 1, rest.len());
    let header = match bytes_as_str(header_slice) {
        Some(s) => s,
        None => {
            return Err(CompressedGitObjectError::EncodingError);
        },
    };
    proof {
        broadcast use vstd::utf8::encode_utf8_decode_utf8;

        assert(content_slice@ =~= value@.subrange(pos + 1, value@.len() as int));
    }
    let content = vstd::slice::slice_to_vec(content_slice);
    Ok((header.to_owned(), content))
}

/// ASCII whitespace, the token separator in a loose-object header.
pub open spec fn is_ascii_ws(c: char) -> bool {
    c == ' ' || c == '\t' || c == '\n' || c == '\x0c' || c == '\r'
}

/// Index of the first non-whitespace character at or after `i`.
pub open spec fn skip_ws(s: Seq<char>, i: int) -> int
    decreases s.len() - i
        when 0 <= i <= s.len()
{
    if i >= s.len() {
        i
    } else if is_ascii_ws(s[i]) {
        skip_ws(s, i + 1)
    } else {
        i
    }
}

/// Index of the first whitespace character at or after `i`, so the end of a
/// token starting at `i`.
pub open spec fn token_end(s: Seq<char>, i: int) -> int
    decreases s.len() - i
        when 0 <= i <= s.len()
{
    if i >= s.len() {
        i
    } else if is_ascii_ws(s[i]) {
        i
    } else {
        token_end(s, i + 1)
    }
}

/// Start of the header's first whitespace-separated token.
pub open spec fn first_token_start(s: Seq<char>) -> int {
    skip_ws(s, 0)
}

/// End of the header's first token.
pub open spec fn first_token_end(s: Seq<char>) -> int {
    token_end(s, first_token_start(s))
}

/// Start of the header's second token.
pub open spec fn second_token_start(s: Seq<char>) -> int {
    skip_ws(s, first_token_end(s))
}

/// End of the header's second token.
pub open spec fn second_token_end(s: Seq<char>) -> int {
    token_end(s, second_token_start(s))
}

/// The header's first whitespace-separated token.
pub open spec fn first_token(s: Seq<char>) -> Seq<char> {
    s.subrange(first_token_start(s), first_token_end(s))
}

/// The header's second whitespace-separated token.
pub open spec fn second_token(s: Seq<char>) -> Seq<char> {
    s.subrange(second_token_start(s), second_token_end(s))
}

/// True when the header has at least two whitespace-separated tokens; tokens
/// beyond the second are tolerated and ignored.
pub open spec fn has_two_tokens(s: Seq<char>) -> bool {
    first_token_start(s) < s.len() && second_token_start(s) < s.len()
}

/// An ASCII decimal digit.
pub open spec fn is_digit(c: char) -> bool {
    '0' <= c && c <= '9'
}

/// The numeric value of one decimal digit.
pub open spec fn digit_val(c: char) -> int {
    c as u32 - '0' as u32
}

/// True when the text is made of decimal digits only.
pub open spec fn all_digits(s: Seq<char>) -> bool {
    forall|i: int| 0 <= i < s.len() ==> is_digit(#[trigger] s[i])
}

/// The numeric value of a decimal digit string, most significant digit first.
pub open spec fn dec_val(s: Seq<char>) -> int
    decreases s.len(),
{
    if s.len() == 0 {
        0
    } else {
        dec_val(s.drop_last()) * 10 + digit_val(s.last())
    }
}

/// A digit string's value is nonnegative.
pub proof fn lemma_dec_val_nonneg(s: Seq<char>)
    requires
        all_digits(s),
    ensures
        dec_val(s) >= 0,
    decreases s.len(),
{
    if s.len() > 0 {
        let dl = s.drop_last();
        assert forall|i: int| 0 <= i < dl.len() implies is_digit(#[trigger] dl[i]) by {
            assert(dl[i] == s[i]);
        }
        lemma_dec_val_nonneg(dl);
        assert(dec_val(dl) * 10 >= 0) by (nonlinear_arith)
            requires
                dec_val(dl) >= 0,
        ;
    }
}

/// A digit string's value never goes down as the string grows.
pub proof fn lemma_dec_val_prefix(s: Seq<char>, k: int)
    requires
        0 <= k <= s.len(),
        all_digits(s),
    ensures
        dec_val(s.subrange(0, k)) <= dec_val(s),
    decreases s.len(),
{
    if k == s.len() {
        assert(s.subrange(0, k) =~= s);
    } else {
        let dl = s.drop_last();
        assert forall|i: int| 0 <= i < dl.len() implies is_digit(#[trigger] dl[i]) by {
            assert(dl[i] == s[i]);
        }
        assert(s.subrange(0, k) =~= dl.subrange(0, k));
        lemma_dec_val_prefix(dl, k);
        lemma_dec_val_nonneg(dl);
        assert(dec_val(dl) * 10 >= dec_val(dl)) by (nonlinear_arith)
            requires
                dec_val(dl) >= 0,
        ;
        assert(dec_val(s) == dec_val(dl) * 10 + digit_val(s.last()));
    }
}

/// The digit part of a decimal token: everything after an optional leading
/// `+` sign.
pub open spec fn token_digits(tok: Seq<char>) -> Seq<char> {
    if tok.len() > 0 && tok[0] == '+' {
        tok.subrange(1, tok.len() as int)
    } else {
        tok
    }
}

/// What parsing a token as an unsigned 64-bit decimal integer yields: the
/// grammar is an optional leading `+`, then one or more digits, and the value
/// must fit in 64 bits.
pub open spec fn u64_of_token(tok: Seq<char>) -> Option<u64> {
    let digits = token_digits(tok);
    if digits.len() > 0 && all_digits(digits) && dec_val(digits) <= u64::MAX {
        Some(dec_val(digits) as u64)
    } else {
        None
    }
}

/// Whether one character is ASCII whitespace.
fn is_ws_char(c: char) -> (r: bool)
    ensures
        r == is_ascii_ws(c),
{
    c == ' ' || c == '\t' || c == '\n' || c == '\x0c' || c == '\r'
}

/// First non-whitespace position at or after `from`.
fn skip_ws_exec(s: &str, from: usize) -> (r: usize)
    requires
        from <= s@.len(),
    ensures
        r as int == skip_ws(s@, from as int),
        from <= r <= s@.len(),
{
    let n = s.unicode_len();
    let mut i = from;
    while i < n
        invariant
            from <= i <= n,
            n == s@.len(),
            skip_ws(s@, from as int) == skip_ws(s@, i as int),
        decreases n - i,
    {
        if !is_ws_char(s.get_char(i)) {
            return i;
        }
        i += 1;
    }
    i
}

/// First whitespace position at or after `from`.
fn token_end_exec(s: &str, from: usize) -> (r: usize)
    requires
        from <= s@.len(),
    ensures
        r as int == token_end(s@, from as int),
        from <= r <= s@.len(),
{
    let n = s.unicode_len();
    let mut i = from;
    while i < n
        invariant
            from <= i <= n,
            n == s@.len(),
            token_end(s@, from as int) == token_end(s@, i as int),
        decreases n - i,
    {
        if is_ws_char(s.get_char(i)) {
            return i;
        }
        i += 1;
    }
    i
}

/// Parses a token as an unsigned 64-bit decimal integer.
fn parse_u64_token(s: &str) -> (r: Option<u64>)
    ensures
        r == u64_of_token(s@),
{
    let n = s.unicode_len();
    let plus = n > 0 && s.get_char(0) == '+';
    let start: usize = if plus {
        1
    } else {
        0
    };
    proof {
        assert(plus == (s@.len() > 0 && s@[0] == '+'));
        assert(s@.subrange(0, s@.len() as int) =~= s@);
    }
    let ghost digits = s@.subrange(start as int, n as int);
    if start == n {
        return None;
    }
    let mut val: u64 = 0;
    let mut i = start;
    while i < n
        invariant
            start <= i <= n,
            n == s@.len(),
            start < n,
            start <= 1,
            (start == 1) == (s@.len() > 0 && s@[0] == '+'),
            digits == s@.subrange(start as int, n as int),
            digits == token_digits(s@),
            all_digits(digits.subrange(0, i - start)),
            val as int == dec_val(digits.subrange(0, i - start)),
        decreases n - i,
    {
        let c = s.get_char(i);
        let cv = c as u32;
        if !(48 <= cv && cv <= 57) {
            assert(!is_digit(digits[i - start]));
            return None;
        }
        let d = (cv - 48) as u64;
        proof {
            let pre = digits.subrange(0, i - start);
            let ext = digits.subrange(0, i - start + 1);
            assert(ext.drop_last() =~= pre);
            assert(ext.last() == digits[i - start]);
        }
        if val > (u64::MAX - d) / 10 {
            proof {
                let ext = digits.subrange(0, i - start + 1);
                assert(dec_val(ext) > u64::MAX);
                if all_digits(digits) {
                    lemma_dec_val_prefix(digits, i - start + 1);
                }
            }
            return None;
        }
        val = val * 10 + d;
        i += 1;
    }
    proof {
        assert(digits.subrange(0, n - start) =~= digits);
    }
    Some(val)
}

/// What parsing a header text yields: an object kind and a declared length, or
/// the error of the first step that fails. The first token names the kind, the
/// second is the length; extra tokens are tolerated.
pub open spec fn parse_header_spec(s: Seq<char>) -> Result<
    (ObjectTypes, u64),
    CompressedGitObjectError,
> {
    if !has_two_tokens(s) {
        Err(CompressedGitObjectError::InvalidHeader)
    } else {
        match object_type_of_token(first_token(s)) {
            None => Err(CompressedGitObjectError::InvalidTypeName),
            Some(t) => match u64_of_token(second_token(s)) {
                None => Err(CompressedGitObjectError::InvalidHeader),
                Some(n) => Ok((t, n)),
            },
        }
    }
}

/// Parses a header text into an object kind and a declared length.
pub fn parse_header(header: &str) -> (r: Result<
    (ObjectTypes, u64),
    CompressedGitObjectError,
>)
    ensures
        r == parse_header_spec(header@),
{
    let n = header.unicode_len();
    let a = skip_ws_exec(header, 0);
    if a == n {
        return Err(CompressedGitObjectError::InvalidHeader);
    }
    let b = token_end_exec(header, a);
    let c = skip_ws_exec(header, b);
    if c == n {
        return Err(CompressedGitObjectError::InvalidHeader);
    }
    let d = token_end_exec(header, c);
    let tok1 = header.substring_char(a, b);
    let object_type = match ObjectTypes::from_str(tok1) {
        Ok(t) => t,
        Err(e) => {
            return Err(e);
        },
    };
    let tok2 = header.substring_char(c, d);
    match parse_u64_token(tok2) {
        Some(length) => Ok((object_type, length)),
        None => Err(CompressedGitObjectError::InvalidHeader),
    }
}

/// What decoding an already-inflated buffer yields: kind, declared length and
/// content, with the declared length checked against the content's size.
pub open spec fn parse_inflated_spec(b: Seq<u8>) -> Result<
    (ObjectTypes, u64, Seq<u8>),
    CompressedGitObjectError,
> {
    match split_object_spec(b) {
        Err(e) => Err(e),
        Ok(hc) => match parse_header_spec(hc.0) {
            Err(e) => Err(e),
            Ok(tn) => if tn.1 as int == hc.1.len() {
                Ok((tn.0, tn.1, hc.1))
            } else {
                Err(CompressedGitObjectError::LengthMismatch)
            },
        },
    }
}

/// When a position holds a NUL and nothing before it does, the NUL search
/// finds exactly that position.
pub proof fn lemma_find_null_at(b: Seq<u8>, p: int)
    requires
        0 <= p < b.len(),
        b[p] == 0u8,
        forall|j: int| 0 <= j < p ==> b[j] != 0u8,
    ensures
        find_null_from(b, 0) == Some(p),
{
    lemma_find_null_from(b, 0);
    if find_null_from(b, 0) is None {
        assert(b[p] == 0u8 && b[p] != 0u8);
    }
}

/// When everything in `[i, e)` is whitespace and `e` is the text's end or a
/// non-whitespace position, skipping whitespace from `i` lands on `e`.
pub proof fn lemma_skip_ws_at(s: Seq<char>, i: int, e: int)
    requires
        0 <= i <= e <= s.len(),
        forall|j: int| i <= j < e ==> is_ascii_ws(s[j]),
        e < s.len() ==> !is_ascii_ws(s[e]),
    ensures
        skip_ws(s, i) == e,
    decreases e - i,
{
    if i < e {
        lemma_skip_ws_at(s, i + 1, e);
    }
}

/// When everything in `[i, e)` is non-whitespace and `e` is the text's end or
/// a whitespace position, the token starting at `i` ends exactly at `e`.
pub proof fn lemma_token_end_at(s: Seq<char>, i: int, e: int)
    requires
        0 <= i <= e <= s.len(),
        forall|j: int| i <= j < e ==> !is_ascii_ws(s[j]),
        e < s.len() ==> is_ascii_ws(s[e]),
    ensures
        token_end(s, i) == e,
    decreases e - i,
{
    if i < e {
        lemma_token_end_at(s, i + 1, e);
    }
}

/// Every object-kind token is made of lowercase ASCII letters only.
pub proof fn lemma_object_type_token_chars(t: ObjectTypes)
    ensures
        forall|i: int|
            0 <= i < object_type_token(t).len() ==> 'a' <= #[trigger] object_type_token(t)[i]
                <= 'z',
{
}

/// Resolving the token that names a kind gives back that kind.
pub proof fn lemma_object_type_token_roundtrip(t: ObjectTypes)
    ensures
        object_type_of_token(object_type_token(t)) == Some(t),
{
}

/// The decimal digit character for a value below ten.
pub open spec fn digit_char(d: int) -> char {
    if d == 0 {
        '0'
    } else if d == 1 {
        '1'
    } else if d == 2 {
        '2'
    } else if d == 3 {
        '3'
    } else if d == 4 {
        '4'
    } else if d == 5 {
        '5'
    } else if d == 6 {
        '6'
    } else if d == 7 {
        '7'
    } else if d == 8 {
        '8'
    } else {
        '9'
    }
}

/// The canonical decimal text of a nonnegative number, most significant digit
/// first and without a sign or leading zeros.
pub open spec fn dec_chars(n: int) -> Seq<char>
    decreases n
        when n >= 0
{
    if n < 10 {
        seq![digit_char(n)]
    } else {
        dec_chars(n / 10).push(digit_char(n % 10))
    }
}

/// Each digit character is a digit and evaluates back to its value.
pub proof fn lemma_digit_char_val(d: int)
    requires
        0 <= d <= 9,
    ensures
        is_digit(digit_char(d)),
        digit_val(digit_char(d)) == d,
{
}

/// The canonical decimal text is one or more digits.
pub proof fn lemma_dec_chars_digits(n: int)
    requires
        n >= 0,
    ensures
        dec_chars(n).len() >= 1,
        all_digits(dec_chars(n)),
    decreases n,
{
    if n < 10 {
        lemma_digit_char_val(n);
    } else {
        lemma_dec_chars_digits(n / 10);
        lemma_digit_char_val(n % 10);
        let pre = dec_chars(n / 10);
        let whole = pre.push(digit_char(n % 10));
        assert forall|i: int| 0 <= i < whole.len() implies is_digit(#[trigger] whole[i]) by {
            if i < pre.len() {
                assert(whole[i] == pre[i]);
            }
        }
    }
}

/// The canonical decimal text of a number evaluates back to that number.
pub proof fn lemma_dec_val_dec_chars(n: int)
    requires
        n >= 0,
    ensures
        dec_val(dec_chars(n)) == n,
    decreases n,
{
    if n < 10 {
        lemma_digit_char_val(n);
        let s = dec_chars(n);
        assert(s.len() == 1);
        assert(s.drop_last() =~= Seq::<char>::empty());
        assert(s.last() == digit_char(n));
        assert(dec_val(Seq::<char>::empty()) == 0);
        assert(dec_val(s) == dec_val(Seq::<char>::empty()) * 10 + digit_val(s.last()));
    } else {
        lemma_dec_val_dec_chars(n / 10);
        lemma_digit_char_val(n % 10);
        let pre = dec_chars(n / 10);
        let whole = pre.push(digit_char(n % 10));
        assert(whole.drop_last() =~= pre);
        assert(dec_val(whole) == dec_val(pre) * 10 + digit_val(digit_char(n % 10)));
        vstd::arithmetic::div_mod::lemma_fundamental_div_mod(n, 10);
    }
}

/// Parsing the canonical decimal text of a 64-bit number yields that number.
pub proof fn lemma_u64_of_dec_chars(n: int)
    requires
        0 <= n <= u64::MAX,
    ensures
        u64_of_token(dec_chars(n)) == Some(n as u64),
{
    lemma_dec_chars_digits(n);
    lemma_dec_val_dec_chars(n);
    let s = dec_chars(n);
    assert(is_digit(s[0]));
    assert(s[0] != '+');
    assert(token_digits(s) == s);
}

/// The canonical header text for a kind and a declared length: the kind's
/// token, one space, and the length in decimal.
pub open spec fn header_chars(t: ObjectTypes, n: int) -> Seq<char> {
    object_type_token(t) + seq![' '] + dec_chars(n)
}

/// The canonical inflated bytes of a loose object: the encoded header text, a
/// NUL delimiter, and the content.
pub open spec fn loose_object_bytes(t: ObjectTypes, content: Seq<u8>) -> Seq<u8> {
    encode_utf8(header_chars(t, content.len() as int)) + seq![0u8] + content
}

/// Parsing the canonical header text gives back exactly the kind and the
/// declared length.
pub proof fn lemma_parse_header_chars(t: ObjectTypes, n: int)
    requires
        0 <= n <= u64::MAX,
    ensures
        parse_header_spec(header_chars(t, n)) == Ok::<_, CompressedGitObjectError>(
            (t, n as u64),
        ),
{
    let tok = object_type_token(t);
    let k = tok.len() as int;
    let d = dec_chars(n);
    let h = header_chars(t, n);
    lemma_object_type_token_chars(t);
    lemma_dec_chars_digits(n);
    assert(h.len() == k + 1 + d.len());
    assert forall|i: int| 0 <= i < k implies h[i] == tok[i] && !is_ascii_ws(h[i]) by {
        assert('a' <= tok[i] <= 'z');
    }
    assert(h[k] == ' ');
    assert forall|i: int| k + 1 <= i < h.len() implies h[i] == d[i - k - 1] && !is_ascii_ws(
        h[i],
    ) by {
        assert(is_digit(d[i - k - 1]));
    }
    lemma_token_end_at(h, 0, k);
    lemma_skip_ws_at(h, 0, 0);
    lemma_skip_ws_at(h, k, k + 1);
    lemma_token_end_at(h, k + 1, h.len() as int);
    assert(first_token(h) =~= tok);
    assert(second_token(h) =~= d);
    lemma_object_type_token_roundtrip(t);
    lemma_u64_of_dec_chars(n);
}

/// Encoding a kind and a content as canonical loose-object bytes and decoding
/// them again gives back exactly the kind, the content's length and the
/// content: the codec's round trip over the inflated form.
pub proof fn lemma_loose_object_round_trip(t: ObjectTypes, content: Seq<u8>)
    requires
        content.len() <= u64::MAX,
    ensures
        parse_inflated_spec(loose_object_bytes(t, content)) == Ok::<
            _,
            CompressedGitObjectError,
        >((t, content.len() as u64, content)),
{
    broadcast use vstd::utf8::encode_utf8_valid_utf8;
    broadcast use vstd::utf8::encode_utf8_decode_utf8;
    broadcast use vstd::utf8::is_ascii_chars_encode_utf8;

    let n = content.len() as int;
    let h = header_chars(t, n);
    let hb = encode_utf8(h);
    let b = loose_object_bytes(t, content);
    lemma_object_type_token_chars(t);
    lemma_dec_chars_digits(n);
    let tok = object_type_token(t);
    let k = tok.len() as int;
    let d = dec_chars(n);
    assert(is_ascii_chars(h)) by {
        assert forall|i: int| 0 <= i < h.len() implies '\0' <= #[trigger] h[i] <= '\u{7f}' by {
            if i < k {
                assert(h[i] == tok[i]);
                assert('a' <= tok[i] <= 'z');
            } else if i == k {
                assert(h[i] == ' ');
            } else {
                assert(h[i] == d[i - k - 1]);
                assert(is_digit(d[i - k - 1]));
            }
        }
    }
    assert(hb.len() == h.len());
    assert forall|i: int| 0 <= i < hb.len() implies hb[i] != 0u8 by {
        assert(hb[i] == h[i] as u8);
        if i < k {
            assert(h[i] == tok[i]);
            assert('a' <= h[i] <= 'z');
        } else if i == k {
            assert(h[i] == ' ');
        } else {
            assert(h[i] == d[i - k - 1]);
            assert(is_digit(h[i]));
        }
        assert('\0' <= h[i] <= '\u{7f}');
        assert(h[i] != '\0');
    }
    assert(b.len() == hb.len() + 1 + content.len());
    assert(b[hb.len() as int] == 0u8);
    assert forall|j: int| 0 <= j < hb.len() implies b[j] != 0u8 by {
        assert(b[j] == hb[j]);
    }
    lemma_find_null_at(b, hb.len() as int);
    assert(b.subrange(0, hb.len() as int) =~= hb);
    assert(b.subrange(hb.len() as int + 1, b.len() as int) =~= content);
    assert(valid_utf8(hb));
    assert(decode_utf8(hb) == h);
    assert(split_object_spec(b) == Ok::<_, CompressedGitObjectError>((h, content)));
    lemma_parse_header_chars(t, n);
}

/// Any inflated buffer without a NUL delimiter fails with the
/// missing-delimiter error, whatever else it holds.
pub proof fn lemma_no_delimiter_fails(b: Seq<u8>)
    requires
        forall|i: int| 0 <= i < b.len() ==> b[i] != 0u8,
    ensures
        parse_inflated_spec(b) == Err::<(ObjectTypes, u64, Seq<u8>), _>(
            CompressedGitObjectError::NullCharacterNotFound,
        ),
{
    lemma_find_null_from(b, 0);
    if find_null_from(b, 0) is Some {
        let p = find_null_from(b, 0)->0;
        assert(b[p] == 0u8);
    }
}

/// A header whose first token names no known object kind makes decoding fail
/// with the unknown-kind error, whatever stands after that token.
pub proof fn lemma_unknown_kind_fails(b: Seq<u8>)
    requires
        split_object_spec(b) is Ok,
        has_two_tokens(split_object_spec(b)->Ok_0.0),
        object_type_of_token(first_token(split_object_spec(b)->Ok_0.0)) is None,
    ensures
        parse_inflated_spec(b) == Err::<(ObjectTypes, u64, Seq<u8>), _>(
            CompressedGitObjectError::InvalidTypeName,
        ),
{
}

/// A header with fewer than two whitespace-separated tokens makes decoding
/// fail with the malformed-header error.
pub proof fn lemma_too_few_tokens_fails(b: Seq<u8>)
    requires
        split_object_spec(b) is Ok,
        !has_two_tokens(split_object_spec(b)->Ok_0.0),
    ensures
        parse_inflated_spec(b) == Err::<(ObjectTypes, u64, Seq<u8>), _>(
            CompressedGitObjectError::InvalidHeader,
        ),
{
}

/// A zlib-compressed loose object, borrowed from the object store.
#[derive(Debug)]
pub struct CompressedGitObject<'a> {
    pub content: &'a Vec<u8>,
}

impl<'a> CompressedGitObject<'a> {
    /// Wraps a compressed buffer for decoding.
    pub fn new(content: &'a Vec<u8>) -> (r: CompressedGitObject<'a>)
        ensures
            r.content == content,
    {
        CompressedGitObject { content }
    }

    /// Decodes the buffer: inflate, split at the first NUL, parse the header,
    /// and check the declared length against the content.
    pub fn parse(&self) -> (r: Result<
        (ObjectTypes, u64, Vec<u8>),
        CompressedGitObjectError,
    >)
        ensures
            match inflate_of(self.content@) {
                None => r matches Err(e) && e == CompressedGitObjectError::InvalidZlibData,
                Some(inflated) => match parse_inflated_spec(inflated) {
                    Ok(tnc) => r matches Ok(v) && v.0 == tnc.0 && v.1 == tnc.1 && v.2@ == tnc.2,
                    Err(e) => r matches Err(e2) && e2 == e,
                },
            },
    {
        let inflated = match inflate(self.content) {
            Ok(v) => v,
            Err(e) => {
                return Err(e);
            },
        };
        let (header, content) = match split_object(&inflated) {
            Ok(v) => v,
            Err(e) => {
                return Err(e);
            },
        };
        let (object_type, length) = match parse_header(header.as_str()) {
            Ok(v) => v,
            Err(e) => {
                return Err(e);
            },
        };
        if length == content.len() as u64 {
            Ok((object_type, length, content))
        } else {
            Err(CompressedGitObjectError::LengthMismatch)
        }
    }
}

} // verus!
