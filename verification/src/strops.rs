//! Small verified helpers on strings and byte sequences that the parsing and
//! rendering modules share: decimal and hexadecimal formatting, byte-wise
//! equality, ASCII-case-insensitive comparison, whitespace scanning, line
//! splitting, and a few lemmas about UTF-8 character boundaries.
//!
//! Contracts about the text content of a `&str` or `String` value `s` are
//! stated either over its view `s@` (a `Seq<char>`) or over its UTF-8 bytes
//! `encode_utf8(s@)`; the two determine each other exactly.

use vstd::prelude::*;
use vstd::string::StringExecFns;
use vstd::string::StringSliceAdditionalSpecFns;
use vstd::utf8::encode_utf8;
use vstd::utf8::is_char_boundary;
use vstd::utf8::is_continuation_byte;
use vstd::utf8::is_leading_byte_width_1;
use vstd::utf8::length_of_first_scalar;
use vstd::utf8::pop_first_scalar;
use vstd::utf8::valid_utf8;

verus! {

/// The decimal digit character for a value below ten.
pub open spec fn spec_digit(d: nat) -> char {
    if d == 0 {
        '0'
    } else if d == 1 {
        '1'
    } else if d == 2 {
        '2'
    } else if d == 3 {
        '3'
    } else if d == 4 {
        '4'
    } else if d == 5 {
        '5'
    } else if d == 6 {
        '6'
    } else if d == 7 {
        '7'
    } else if d == 8 {
        '8'
    } else {
        '9'
    }
}

/// The usual decimal rendering of a natural number, most significant digit
/// first, with no leading zeros (except for the number zero itself).
pub open spec fn spec_decimal(n: nat) -> Seq<char>
    decreases n,
{
    if n < 10 {
        seq![spec_digit(n)]
    } else {
        spec_decimal(n / 10) + seq![spec_digit(n % 10)]
    }
}

fn digit_str(d: u64) -> (r: &'static str)
    requires
        d < 10,
    ensures
        r@ == seq![spec_digit(d as nat)],
{
    proof {
        reveal_strlit("0");
        reveal_strlit("1");
        reveal_strlit("2");
        reveal_strlit("3");
        reveal_strlit("4");
        reveal_strlit("5");
        reveal_strlit("6");
        reveal_strlit("7");
        reveal_strlit("8");
        reveal_strlit("9");
    }
    let r = if d == 0 {
        "0"
    } else if d == 1 {
        "1"
    } else if d == 2 {
        "2"
    } else if d == 3 {
        "3"
    } else if d == 4 {
        "4"
    } else if d == 5 {
        "5"
    } else if d == 6 {
        "6"
    } else if d == 7 {
        "7"
    } else if d == 8 {
        "8"
    } else {
        "9"
    };
    proof {
        assert(r@ =~= seq![spec_digit(d as nat)]);
    }
    r
}

/// Decimal rendering of an unsigned number.
pub fn u64_to_string(n: u64) -> (r: String)
    ensures
        r@ == spec_decimal(n as nat),
    decreases n,
{
    if n < 10 {
        digit_str(n).to_owned()
    } else {
        let mut s = u64_to_string(n / 10);
        s.append(digit_str(n % 10));
        s
    }
}

/// The lower-case hexadecimal digit character for a value below sixteen.
pub open spec fn spec_hex_digit(d: nat) -> char {
    if d < 10 {
        spec_digit(d)
    } else if d == 10 {
        'a'
    } else if d == 11 {
        'b'
    } else if d == 12 {
        'c'
    } else if d == 13 {
        'd'
    } else if d == 14 {
        'e'
    } else {
        'f'
    }
}

/// Two lower-case hexadecimal digits for one byte.
pub open spec fn spec_hex_byte(b: u8) -> Seq<char> {
    seq![spec_hex_digit((b / 16) as nat), spec_hex_digit((b % 16) as nat)]
}

fn hex_digit_str(d: u8) -> (r: &'static str)
    requires
        d < 16,
    ensures
        r@ == seq![spec_hex_digit(d as nat)],
{
    if d < 10 {
        digit_str(d as u64)
    } else {
        proof {
            reveal_strlit("a");
            reveal_strlit("b");
            reveal_strlit("c");
            reveal_strlit("d");
            reveal_strlit("e");
            reveal_strlit("f");
        }
        let r = if d == 10 {
            "a"
        } else if d == 11 {
            "b"
        } else if d == 12 {
            "c"
        } else if d == 13 {
            "d"
        } else if d == 14 {
            "e"
        } else {
            "f"
        };
        proof {
            assert(r@ =~= seq![spec_hex_digit(d as nat)]);
        }
        r
    }
}

/// Appends the two-digit lower-case hexadecimal form of `b` to `out`.
pub fn append_hex_byte(out: &mut String, b: u8)
    ensures
        final(out)@ == old(out)@ + spec_hex_byte(b),
{
    out.append(hex_digit_str(b / 16));
    out.append(hex_digit_str(b % 16));
    proof {
        assert(final(out)@ =~= old(out)@ + spec_hex_byte(b));
    }
}

/// UTF-8 encoding is injective: equal byte encodings come from equal
/// character sequences.
pub proof fn lemma_encode_utf8_injective(a: Seq<char>, b: Seq<char>)
    requires
        encode_utf8(a) == encode_utf8(b),
    ensures
        a == b,
{
    vstd::utf8::encode_utf8_decode_utf8(a);
    vstd::utf8::encode_utf8_decode_utf8(b);
}

/// Byte-slice equality.
pub fn bytes_eq(a: &[u8], b: &[u8]) -> (r: bool)
    ensures
        r == (a@ == b@),
{
    if a.len() != b.len() {
        return false;
    }
    let n = a.len();
    let mut i: usize = 0;
    while i < n
        invariant
            n == a@.len(),
            n == b@.len(),
            i <= n,
            forall|j: int| 0 <= j < i ==> a@[j] == b@[j],
        decreases n - i,
    {
        if a[i] != b[i] {
            return false;
        }
        i += 1;
    }
    proof {
        assert(a@ =~= b@);
    }
    true
}

/// String equality, stated over the views.
pub fn str_eq(a: &str, b: &str) -> (r: bool)
    ensures
        r == (a@ == b@),
{
    let r = bytes_eq(a.as_bytes(), b.as_bytes());
    proof {
        if a.spec_bytes() == b.spec_bytes() {
            lemma_encode_utf8_injective(a@, b@);
        }
    }
    r
}

/// The ASCII-lower-cased form of one byte: letters `A` to `Z` move to
/// `a` to `z`, every other byte is unchanged.
pub open spec fn spec_lower_byte(b: u8) -> u8 {
    if 65 <= b <= 90 {
        (b + 32) as u8
    } else {
        b
    }
}

/// A byte sequence with every ASCII upper-case letter lower-cased.
pub open spec fn spec_lower_bytes(s: Seq<u8>) -> Seq<u8> {
    s.map_values(|b: u8| spec_lower_byte(b))
}

fn lower_byte(b: u8) -> (r: u8)
    ensures
        r == spec_lower_byte(b),
{
    if 65 <= b && b <= 90 {
        b + 32
    } else {
        b
    }
}

/// ASCII-case-insensitive string comparison: true exactly when the two
/// strings have equal bytes after ASCII lower-casing.
pub fn eq_ignore_case(a: &str, b: &str) -> (r: bool)
    ensures
        r == (spec_lower_bytes(a.spec_bytes()) == spec_lower_bytes(b.spec_bytes())),
{
    let ab = a.as_bytes();
    let bb = b.as_bytes();
    if ab.len() != bb.len() {
        proof {
            assert(spec_lower_bytes(ab@).len() != spec_lower_bytes(bb@).len());
        }
        return false;
    }
    let n = ab.len();
    let mut i: usize = 0;
    while i < n
        invariant
            ab@ == a.spec_bytes(),
            bb@ == b.spec_bytes(),
            n == ab@.len(),
            n == bb@.len(),
            i <= n,
            forall|j: int| 0 <= j < i ==> spec_lower_byte(ab@[j]) == spec_lower_byte(bb@[j]),
        decreases n - i,
    {
        if lower_byte(ab[i]) != lower_byte(bb[i]) {
            proof {
                assert(spec_lower_bytes(a.spec_bytes())[i as int] != spec_lower_bytes(
                    b.spec_bytes(),
                )[i as int]);
            }
            return false;
        }
        i += 1;
    }
    proof {
        assert(spec_lower_bytes(ab@) =~= spec_lower_bytes(bb@));
    }
    true
}

/// True of the ASCII whitespace bytes: space, tab, line feed, form feed,
/// carriage return.
pub open spec fn spec_is_ascii_ws(b: u8) -> bool {
    b == 32 || b == 9 || b == 10 || b == 12 || b == 13
}

pub fn is_ascii_ws(b: u8) -> (r: bool)
    ensures
        r == spec_is_ascii_ws(b),
{
    b == 32 || b == 9 || b == 10 || b == 12 || b == 13
}

/// True when every byte of the sequence is ASCII whitespace; the empty
/// sequence is blank.
pub open spec fn spec_is_blank(s: Seq<u8>) -> bool {
    forall|j: int| 0 <= j < s.len() ==> spec_is_ascii_ws(#[trigger] s[j])
}

/// True when the string consists of whitespace alone, so that it carries no
/// visible content. Blanks here are the ASCII whitespace characters.
pub fn is_blank(s: &str) -> (r: bool)
    ensures
        r == spec_is_blank(s.spec_bytes()),
{
    let b = s.as_bytes();
    let n = b.len();
    let mut i: usize = 0;
    while i < n
        invariant
            b@ == s.spec_bytes(),
            n == b@.len(),
            i <= n,
            forall|j: int| 0 <= j < i ==> spec_is_ascii_ws(#[trigger] b@[j]),
        decreases n - i,
    {
        if !is_ascii_ws(b[i]) {
            proof {
                assert(!spec_is_ascii_ws(s.spec_bytes()[i as int]));
            }
            return false;
        }
        i += 1;
    }
    true
}

/// The number of leading ASCII-whitespace bytes of a byte sequence.
pub open spec fn spec_leading_ws(s: Seq<u8>) -> int
    decreases s.len(),
{
    if s.len() == 0 || !spec_is_ascii_ws(s[0]) {
        0
    } else {
        1 + spec_leading_ws(s.drop_first())
    }
}

pub proof fn lemma_leading_ws_props(s: Seq<u8>)
    ensures
        0 <= spec_leading_ws(s) <= s.len(),
        forall|j: int| 0 <= j < spec_leading_ws(s) ==> spec_is_ascii_ws(#[trigger] s[j]),
        spec_leading_ws(s) < s.len() ==> !spec_is_ascii_ws(s[spec_leading_ws(s)]),
    decreases s.len(),
{
    if s.len() == 0 || !spec_is_ascii_ws(s[0]) {
    } else {
        lemma_leading_ws_props(s.drop_first());
        assert forall|j: int| 0 <= j < spec_leading_ws(s) implies spec_is_ascii_ws(
            #[trigger] s[j],
        ) by {
            if j > 0 {
                assert(s.drop_first()[j - 1] == s[j]);
            }
        }
    }
}

/// Counts the leading ASCII-whitespace bytes of a string.
pub fn count_leading_ws(s: &str) -> (r: usize)
    ensures
        r == spec_leading_ws(s.spec_bytes()),
{
    let b = s.as_bytes();
    let n = b.len();
    let mut i: usize = 0;
    while i < n
        invariant
            b@ == s.spec_bytes(),
            n == b@.len(),
            i <= n,
            forall|j: int| 0 <= j < i ==> spec_is_ascii_ws(#[trigger] b@[j]),
        decreases n - i,
    {
        if !is_ascii_ws(b[i]) {
            proof {
                lemma_leading_ws_props(s.spec_bytes());
                let w = spec_leading_ws(s.spec_bytes());
                if w < i {
                    assert(spec_is_ascii_ws(s.spec_bytes()[w]));
                    assert(b@[w] == s.spec_bytes()[w]);
                }
                if w > i {
                    assert(spec_is_ascii_ws(s.spec_bytes()[i as int]));
                }
            }
            return i;
        }
        i += 1;
    }
    proof {
        lemma_leading_ws_props(s.spec_bytes());
        let w = spec_leading_ws(s.spec_bytes());
        if w < i {
            assert(!spec_is_ascii_ws(s.spec_bytes()[w]));
            assert(b@[w] == s.spec_bytes()[w]);
        }
    }
    i
}

/// A character boundary of a valid UTF-8 sequence composes with a character
/// boundary of the suffix that starts there.
pub proof fn lemma_char_boundary_compose(bytes: Seq<u8>, i: int, k: int)
    requires
        valid_utf8(bytes),
        0 <= i,
        0 <= k,
        i + k <= bytes.len(),
        is_char_boundary(bytes, i),
        is_char_boundary(bytes.subrange(i, bytes.len() as int), k),
    ensures
        is_char_boundary(bytes, i + k),
    decreases i,
{
    if i == 0 {
        assert(bytes.subrange(0, bytes.len() as int) =~= bytes);
    } else {
        let ell = length_of_first_scalar(bytes);
        let tail = pop_first_scalar(bytes);
        assert(is_char_boundary(tail, i - ell));
        assert(i - ell >= 0) by {
            if i - ell < 0 {
                reveal_with_fuel(vstd::utf8::is_char_boundary, 2);
            }
        }
        assert(tail.subrange(i - ell, tail.len() as int) =~= bytes.subrange(
            i,
            bytes.len() as int,
        ));
        assert(1 <= ell);
        lemma_char_boundary_compose(tail, i - ell, k);
        assert(is_char_boundary(bytes, i + k));
    }
}

/// After a one-byte character inside a valid UTF-8 sequence, the next
/// position is again a character boundary.
pub proof fn lemma_boundary_after_byte1(bytes: Seq<u8>, i: int)
    requires
        valid_utf8(bytes),
        0 <= i < bytes.len(),
        is_char_boundary(bytes, i),
        is_leading_byte_width_1(bytes[i]),
    ensures
        is_char_boundary(bytes, i + 1),
{
    let suffix = bytes.subrange(i, bytes.len() as int);
    vstd::utf8::valid_utf8_split(bytes, i);
    assert(valid_utf8(suffix));
    assert(suffix[0] == bytes[i]);
    assert(length_of_first_scalar(suffix) == 1);
    assert(is_char_boundary(suffix, 1)) by {
        reveal_with_fuel(vstd::utf8::is_char_boundary, 2);
        assert(pop_first_scalar(suffix) == suffix.subrange(1, suffix.len() as int));
    }
    lemma_char_boundary_compose(bytes, i, 1);
}

/// A position preceded by one-byte characters alone is a character boundary.
pub proof fn lemma_ascii_prefix_boundary(bytes: Seq<u8>, p: int)
    requires
        valid_utf8(bytes),
        0 <= p <= bytes.len(),
        forall|j: int| 0 <= j < p ==> is_leading_byte_width_1(#[trigger] bytes[j]),
    ensures
        is_char_boundary(bytes, p),
    decreases p,
{
    if p > 0 {
        lemma_ascii_prefix_boundary(bytes, p - 1);
        lemma_boundary_after_byte1(bytes, p - 1);
    }
}

/// The position of the first occurrence of a byte.
pub open spec fn spec_find_byte(s: Seq<u8>, b: u8) -> Option<int>
    decreases s.len(),
{
    if s.len() == 0 {
        None
    } else if s[0] == b {
        Some(0)
    } else {
        match spec_find_byte(s.drop_first(), b) {
            Some(i) => Some(i + 1),
            None => None,
        }
    }
}

pub proof fn lemma_find_byte_props(s: Seq<u8>, b: u8)
    ensures
        match spec_find_byte(s, b) {
            Some(i) => 0 <= i < s.len() && s[i] == b && forall|j: int| 0 <= j < i ==> s[j] != b,
            None => forall|j: int| 0 <= j < s.len() ==> s[j] != b,
        },
    decreases s.len(),
{
    if s.len() == 0 {
    } else if s[0] == b {
    } else {
        lemma_find_byte_props(s.drop_first(), b);
        assert forall|j: int| 1 <= j < s.len() implies s[j] == s.drop_first()[j - 1] by {}
    }
}

/// Finds the first occurrence of a byte in a slice.
pub fn find_byte(s: &[u8], b: u8) -> (r: Option<usize>)
    ensures
        match r {
            Some(i) => spec_find_byte(s@, b) == Some(i as int),
            None => spec_find_byte(s@, b) is None,
        },
{
    let n = s.len();
    let mut i: usize = 0;
    while i < n
        invariant
            n == s@.len(),
            i <= n,
            forall|j: int| 0 <= j < i ==> s@[j] != b,
        decreases n - i,
    {
        if s[i] == b {
            proof {
                lemma_find_byte_props(s@, b);
            }
            return Some(i);
        }
        i += 1;
    }
    proof {
        lemma_find_byte_props(s@, b);
    }
    None
}

/// The segments of a byte sequence between line-feed bytes: one more segment
/// than there are line feeds, in order, each without its terminator.
pub open spec fn spec_split_lines(s: Seq<u8>) -> Seq<Seq<u8>>
    decreases s.len(),
    via spec_split_lines_decreases
{
    match spec_find_byte(s, 10) {
        None => seq![s],
        Some(i) => seq![s.subrange(0, i)] + spec_split_lines(s.subrange(i + 1, s.len() as int)),
    }
}

#[via_fn]
proof fn spec_split_lines_decreases(s: Seq<u8>) {
    lemma_find_byte_props(s, 10);
}

/// Splits a string at line feeds. The content of each piece is exact: the
/// UTF-8 bytes of the pieces are the segments of the input's bytes.
pub fn split_lines(s: &str) -> (r: Vec<String>)
    ensures
        r@.map_values(|t: String| encode_utf8(t@)) == spec_split_lines(s.spec_bytes()),
{
    broadcast use vstd::utf8::encode_utf8_valid_utf8;

    let mut out: Vec<String> = Vec::new();
    let mut rest: &str = s;
    loop
        invariant
            spec_split_lines(s.spec_bytes()) =~= out@.map_values(|t: String| encode_utf8(t@))
                + spec_split_lines(rest.spec_bytes()),
        decreases rest.spec_bytes().len(),
    {
        let bytes = rest.as_bytes();
        match find_byte(bytes, 10) {
            None => {
                let ghost prev = out@;
                out.push(rest.to_owned());
                proof {
                    assert(out@.map_values(|t: String| encode_utf8(t@)) =~= prev.map_values(
                        |t: String| encode_utf8(t@),
                    ) + seq![rest.spec_bytes()]);
                    assert(spec_split_lines(s.spec_bytes()) =~= out@.map_values(
                        |t: String| encode_utf8(t@),
                    ));
                }
                return out;
            },
            Some(i) => {
                proof {
                    vstd::utf8::encode_utf8_valid_utf8(rest@);
                    assert(valid_utf8(rest.spec_bytes()));
                    lemma_find_byte_props(rest.spec_bytes(), 10);
                    assert(rest.spec_bytes()[i as int] == 10);
                    vstd::utf8::is_char_boundary_iff_not_is_continuation_byte(
                        rest.spec_bytes(),
                        i as int,
                    );
                    assert(is_leading_byte_width_1(rest.spec_bytes()[i as int]));
                    lemma_boundary_after_byte1(rest.spec_bytes(), i as int);
                }
                let (line, tail) = rest.split_at(i);
                let ghost prev = out@;
                out.push(line.to_owned());
                proof {
                    let tb = tail.spec_bytes();
                    vstd::utf8::valid_utf8_split(rest.spec_bytes(), i as int);
                    assert(tb =~= rest.spec_bytes().subrange(
                        i as int,
                        rest.spec_bytes().len() as int,
                    ));
                    assert(valid_utf8(tb));
                    assert(tb[0] == 10);
                    assert(length_of_first_scalar(tb) == 1);
                    assert(is_char_boundary(tb, 1)) by {
                        reveal_with_fuel(vstd::utf8::is_char_boundary, 2);
                        assert(pop_first_scalar(tb) == tb.subrange(1, tb.len() as int));
                    }
                }
                let (_nl, next) = tail.split_at(1);
                proof {
                    assert(next.spec_bytes() =~= rest.spec_bytes().subrange(
                        i + 1,
                        rest.spec_bytes().len() as int,
                    ));
                    assert(out@.map_values(|t: String| encode_utf8(t@)) =~= prev.map_values(
                        |t: String| encode_utf8(t@),
                    ) + seq![rest.spec_bytes().subrange(0, i as int)]);
                }
                rest = next;
            },
        }
    }
}

/// True when `p` is a prefix of `s`.
pub open spec fn spec_starts_with(s: Seq<u8>, p: Seq<u8>) -> bool {
    p.len() <= s.len() && s.subrange(0, p.len() as int) == p
}

/// Byte-slice prefix test.
pub fn bytes_has_prefix(s: &[u8], p: &[u8]) -> (r: bool)
    ensures
        r == spec_starts_with(s@, p@),
{
    if p.len() > s.len() {
        return false;
    }
    let n = p.len();
    let mut i: usize = 0;
    while i < n
        invariant
            n == p@.len(),
            n <= s@.len(),
            i <= n,
            forall|j: int| 0 <= j < i ==> s@[j] == p@[j],
        decreases n - i,
    {
        if s[i] != p[i] {
            proof {
                assert(s@.subrange(0, n as int)[i as int] != p@[i as int]);
            }
            return false;
        }
        i += 1;
    }
    proof {
        assert(s@.subrange(0, n as int) =~= p@);
    }
    true
}

/// String prefix test, stated over the UTF-8 bytes.
pub fn str_has_prefix(s: &str, p: &str) -> (r: bool)
    ensures
        r == spec_starts_with(s.spec_bytes(), p.spec_bytes()),
{
    bytes_has_prefix(s.as_bytes(), p.as_bytes())
}

/// The bytes of a string with every ASCII-whitespace byte removed.
pub fn remove_ascii_ws(s: &str) -> (r: Vec<u8>)
    ensures
        r@ == s.spec_bytes().filter(|b: u8| !spec_is_ascii_ws(b)),
{
    let b = s.as_bytes();
    let n = b.len();
    let mut out: Vec<u8> = Vec::new();
    let mut i: usize = 0;
    proof {
        reveal(Seq::filter);
        assert(b@.subrange(0, 0) =~= Seq::<u8>::empty());
        assert(out@ =~= b@.subrange(0, 0).filter(|x: u8| !spec_is_ascii_ws(x)));
    }
    while i < n
        invariant
            b@ == s.spec_bytes(),
            n == b@.len(),
            i <= n,
            out@ == b@.subrange(0, i as int).filter(|x: u8| !spec_is_ascii_ws(x)),
        decreases n - i,
    {
        let ghost pre = b@.subrange(0, i as int);
        proof {
            reveal(Seq::filter);
            let f = |x: u8| !spec_is_ascii_ws(x);
            let x = b@[i as int];
            assert(b@.subrange(0, i + 1) =~= pre.push(x));
            assert(pre.push(x).drop_last() =~= pre);
            assert(pre.push(x).last() == x);
            assert(pre.push(x).filter(f) == if f(x) {
                pre.filter(f).push(x)
            } else {
                pre.filter(f)
            });
        }
        if !is_ascii_ws(b[i]) {
            out.push(b[i]);
        }
        i += 1;
    }
    proof {
        assert(b@.subrange(0, n as int) =~= b@);
    }
    out
}

/// ASCII-case-insensitive comparison of a byte vector against a string.
pub fn bytes_eq_ignore_case(a: &[u8], b: &str) -> (r: bool)
    ensures
        r == (spec_lower_bytes(a@) == spec_lower_bytes(b.spec_bytes())),
{
    let bb = b.as_bytes();
    if a.len() != bb.len() {
        proof {
            assert(spec_lower_bytes(a@).len() != spec_lower_bytes(b.spec_bytes()).len());
        }
        return false;
    }
    let n = a.len();
    let mut i: usize = 0;
    while i < n
        invariant
            bb@ == b.spec_bytes(),
            n == a@.len(),
            n == bb@.len(),
            i <= n,
            forall|j: int| 0 <= j < i ==> spec_lower_byte(a@[j]) == spec_lower_byte(bb@[j]),
        decreases n - i,
    {
        if lower_byte(a[i]) != lower_byte(bb[i]) {
            proof {
                assert(spec_lower_bytes(a@)[i as int] != spec_lower_bytes(b.spec_bytes())[
                    i as int
                ]);
            }
            return false;
        }
        i += 1;
    }
    proof {
        assert(spec_lower_bytes(a@) =~= spec_lower_bytes(b.spec_bytes()));
    }
    true
}

/// The number of trailing ASCII-whitespace bytes of a byte sequence.
pub open spec fn spec_trailing_ws(s: Seq<u8>) -> int
    decreases s.len(),
{
    if s.len() == 0 || !spec_is_ascii_ws(s.last()) {
        0
    } else {
        1 + spec_trailing_ws(s.drop_last())
    }
}

pub proof fn lemma_trailing_ws_props(s: Seq<u8>)
    ensures
        0 <= spec_trailing_ws(s) <= s.len(),
        forall|j: int|
            s.len() - spec_trailing_ws(s) <= j < s.len() ==> spec_is_ascii_ws(#[trigger] s[j]),
        spec_trailing_ws(s) < s.len() ==> !spec_is_ascii_ws(s[s.len() - spec_trailing_ws(s) - 1]),
    decreases s.len(),
{
    if s.len() == 0 || !spec_is_ascii_ws(s.last()) {
    } else {
        lemma_trailing_ws_props(s.drop_last());
        assert forall|j: int|
            s.len() - spec_trailing_ws(s) <= j < s.len() implies spec_is_ascii_ws(
            #[trigger] s[j],
        ) by {
            if j < s.len() - 1 {
                assert(s.drop_last()[j] == s[j]);
            }
        }
    }
}

/// The bytes of a string stripped of leading and trailing ASCII whitespace.
pub open spec fn spec_trim_ascii(s: Seq<u8>) -> Seq<u8> {
    let lead = spec_leading_ws(s);
    if lead == s.len() {
        Seq::empty()
    } else {
        s.subrange(lead, s.len() - spec_trailing_ws(s))
    }
}

/// Strips leading and trailing ASCII whitespace from a string.
pub fn trim_ascii(s: &str) -> (r: &str)
    ensures
        r.spec_bytes() == spec_trim_ascii(s.spec_bytes()),
{
    broadcast use vstd::utf8::encode_utf8_valid_utf8;

    let b = s.as_bytes();
    let n = b.len();
    let lead = count_leading_ws(s);
    if lead == n {
        proof {
            reveal_strlit("");
            assert(""@ =~= Seq::<char>::empty());
            assert(encode_utf8(Seq::<char>::empty()) =~= Seq::<u8>::empty());
            assert("".spec_bytes() =~= Seq::<u8>::empty());
            assert(spec_trim_ascii(s.spec_bytes()) =~= Seq::<u8>::empty());
        }
        return "";
    }
    proof {
        lemma_leading_ws_props(s.spec_bytes());
        lemma_trailing_ws_props(s.spec_bytes());
    }
    let mut t: usize = 0;
    loop
        invariant
            b@ == s.spec_bytes(),
            n == b@.len(),
            lead == spec_leading_ws(b@),
            lead < n,
            t <= n - lead,
            forall|j: int| n - t <= j < n ==> spec_is_ascii_ws(#[trigger] b@[j]),
        ensures
            t <= n - lead,
            forall|j: int| n - t <= j < n ==> spec_is_ascii_ws(#[trigger] b@[j]),
            t == n - lead || !spec_is_ascii_ws(b@[n - 1 - t]),
        decreases n - lead - t,
    {
        if t >= n - lead {
            break ;
        }
        if !is_ascii_ws(b[n - 1 - t]) {
            break ;
        }
        t += 1;
    }
    proof {
        lemma_leading_ws_props(s.spec_bytes());
        lemma_trailing_ws_props(s.spec_bytes());
        let tw = spec_trailing_ws(s.spec_bytes());
        assert(!spec_is_ascii_ws(s.spec_bytes()[lead as int]));
        if t == n - lead {
            if tw > t {
                assert(lead >= n - tw);
                assert(spec_is_ascii_ws(s.spec_bytes()[lead as int]));
            }
            if tw < t {
                assert(b@[n - tw - 1] == s.spec_bytes()[n - tw - 1]);
                assert(spec_is_ascii_ws(b@[n - tw - 1]));
                assert(!spec_is_ascii_ws(s.spec_bytes()[n - tw - 1]));
            }
        } else {
            assert(!spec_is_ascii_ws(b@[n - 1 - t]));
            if tw > t {
                assert(spec_is_ascii_ws(s.spec_bytes()[n - t - 1]));
                assert(b@[n - t - 1] == s.spec_bytes()[n - t - 1]);
            }
            if tw < t {
                assert(b@[n - tw - 1] == s.spec_bytes()[n - tw - 1]);
                assert(spec_is_ascii_ws(b@[n - tw - 1]));
                assert(!spec_is_ascii_ws(s.spec_bytes()[n - tw - 1]));
            }
        }
        assert(t == tw);
        assert forall|j: int| 0 <= j < lead implies is_leading_byte_width_1(
            #[trigger] s.spec_bytes()[j],
        ) by {
            assert(spec_is_ascii_ws(s.spec_bytes()[j]));
        }
        lemma_ascii_prefix_boundary(s.spec_bytes(), lead as int);
    }
    let (_, tail) = s.split_at(lead);
    proof {
        vstd::utf8::valid_utf8_split(s.spec_bytes(), lead as int);
        let tb = tail.spec_bytes();
        assert(tb =~= s.spec_bytes().subrange(lead as int, n as int));
        if t > 0 {
            assert(s.spec_bytes()[n - t] == tb[tb.len() - t]);
            assert(spec_is_ascii_ws(tb[tb.len() - t]));
            assert(is_leading_byte_width_1(tb[tb.len() - t]));
            vstd::utf8::is_char_boundary_iff_not_is_continuation_byte(tb, tb.len() - t);
        } else {
            vstd::utf8::is_char_boundary_start_end_of_seq(tb);
        }
    }
    let (head, _) = tail.split_at(tail.len() - t);
    proof {
        assert(head.spec_bytes() =~= spec_trim_ascii(s.spec_bytes()));
    }
    head
}

/// Relies on String::push: appends one character.
#[verifier::external_body]
pub(crate) fn push_char(s: &mut String, c: char)
    ensures
        final(s)@ == old(s)@ + seq![c],
{
    s.push(c);
}

/// A character boundary below another character boundary is a character
/// boundary of the prefix that the higher one cuts off.
pub proof fn lemma_char_boundary_prefix(bytes: Seq<u8>, k: int, c: int)
    requires
        valid_utf8(bytes),
        0 <= k <= c <= bytes.len(),
        is_char_boundary(bytes, k),
        is_char_boundary(bytes, c),
    ensures
        is_char_boundary(bytes.subrange(0, c), k),
    decreases k,
{
    vstd::utf8::valid_utf8_split(bytes, c);
    let sub = bytes.subrange(0, c);
    if k == 0 {
        assert(is_char_boundary(sub, 0));
    } else {
        let ell = length_of_first_scalar(bytes);
        let tail = pop_first_scalar(bytes);
        assert(is_char_boundary(tail, k - ell));
        assert(k - ell >= 0) by {
            if k - ell < 0 {
                reveal_with_fuel(vstd::utf8::is_char_boundary, 2);
            }
        }
        assert(is_char_boundary(tail, c - ell));
        assert(c - ell >= 0);
        assert(1 <= ell);
        lemma_char_boundary_prefix(tail, k - ell, c - ell);
        assert(length_of_first_scalar(sub) == ell);
        assert(pop_first_scalar(sub) =~= tail.subrange(0, c - ell));
        assert(is_char_boundary(sub, k));
    }
}

} // verus!
