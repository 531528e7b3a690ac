//! The C library that user programs link against: memory and string functions over
//! byte buffers, a printf engine driven one argument at a time, and file cursors.
use vstd::prelude::*;

verus! {

/// Whether `s` holds a NUL byte, which ends the C string it starts with.
pub open spec fn has_nul(s: Seq<u8>) -> bool {
    exists|i: int| 0 <= i < s.len() && s[i] == 0
}

/// Whether `n` is the length of the C string at the start of `s`: the index of its
/// first NUL byte.
pub open spec fn is_c_len(s: Seq<u8>, n: int) -> bool {
    &&& 0 <= n < s.len()
    &&& s[n] == 0
    &&& forall|j: int| 0 <= j < n ==> s[j] != 0
}

/// The length of the C string at the start of `s`.
pub open spec fn c_len(s: Seq<u8>) -> int {
    choose|n: int| is_c_len(s, n)
}

/// Only one index is the first NUL.
pub proof fn lemma_c_len(s: Seq<u8>, n: int)
    requires
        is_c_len(s, n),
    ensures
        c_len(s) == n,
{
    let m = c_len(s);
    assert(is_c_len(s, m));
    if m < n {
        assert(s[m] != 0);
    } else if n < m {
        assert(s[n] != 0);
    }
}

/// Fills the first `n` bytes of `s` with the low byte of `c`.
pub fn memset(s: &mut [u8], c: i32, n: usize)
    requires
        n <= old(s)@.len(),
    ensures
        final(s)@.len() == old(s)@.len(),
        forall|i: int| 0 <= i < n ==> #[trigger] final(s)@[i] == c as u8,
        forall|i: int| n <= i < old(s)@.len() ==> #[trigger] final(s)@[i] == old(s)@[i],
{
    let c = c as u8;
    let mut i: usize = 0;
    while i < n
        invariant
            i <= n,
            n <= s@.len(),
            s@.len() == old(s)@.len(),
            forall|j: int| 0 <= j < i ==> #[trigger] s@[j] == c,
            forall|j: int| i <= j < old(s)@.len() ==> #[trigger] s@[j] == old(s)@[j],
        decreases n - i,
    {
        s[i] = c;
        i += 1;
    }
}

/// Copies the first `n` bytes of `s` over the first `n` bytes of `d`.
pub fn memcpy(d: &mut [u8], s: &[u8], n: usize)
    requires
        n <= old(d)@.len(),
        n <= s@.len(),
    ensures
        final(d)@ == s@.subrange(0, n as int) + old(d)@.subrange(n as int, old(d)@.len() as int),
{
    let mut i: usize = 0;
    while i < n
        invariant
            i <= n,
            n <= d@.len(),
            n <= s@.len(),
            d@.len() == old(d)@.len(),
            forall|j: int| 0 <= j < i ==> #[trigger] d@[j] == s@[j],
            forall|j: int| i <= j < old(d)@.len() ==> #[trigger] d@[j] == old(d)@[j],
        decreases n - i,
    {
        d[i] = s[i];
        i += 1;
    }
    assert(d@ =~= s@.subrange(0, n as int) + old(d)@.subrange(n as int, old(d)@.len() as int));
}

/// The first index below `n` where `a` and `b` differ.
pub open spec fn first_difference(a: Seq<u8>, b: Seq<u8>, n: int) -> Option<int> {
    if exists|i: int| 0 <= i < n && a[i] != b[i] {
        Some(choose|i: int| 0 <= i < n && a[i] != b[i] && forall|j: int| 0 <= j < i ==> a[j] == b[j])
    } else {
        None
    }
}

/// The difference of the first bytes of `a` and `b`, among the first `n`, that differ,
/// or 0.
pub open spec fn bytes_difference(a: Seq<u8>, b: Seq<u8>, n: int) -> int {
    match first_difference(a, b, n) {
        Some(i) => a[i] - b[i],
        None => 0,
    }
}

/// The difference of the first bytes of `a` and `b`, among the first `n`, that differ,
/// or 0.
pub open spec fn bytes_difference_up_to(a: Seq<u8>, b: Seq<u8>, n: usize) -> int {
    bytes_difference(a, b, n as int)
}

/// A byte as an `int`.
fn byte_value(b: u8) -> (r: i32)
    ensures
        r == b,
{
    b as i32
}

proof fn lemma_first_difference_at(a: Seq<u8>, b: Seq<u8>, n: usize, i: usize)
    requires
        i < n,
        a[i as int] != b[i as int],
        forall|j: int| 0 <= j < i ==> a[j] == b[j],
    ensures
        first_difference(a, b, n as int) == Some(i as int),
{
    lemma_first_difference(a, b, n as int, i as int);
}

proof fn lemma_first_difference(a: Seq<u8>, b: Seq<u8>, n: int, i: int)
    requires
        0 <= i < n,
        a[i] != b[i],
        forall|j: int| 0 <= j < i ==> a[j] == b[j],
    ensures
        first_difference(a, b, n) == Some(i),
{
    let k = choose|k: int| 0 <= k < n && a[k] != b[k] && forall|j: int| 0 <= j < k ==> a[j] == b[j];
    assert(0 <= k < n && a[k] != b[k] && forall|j: int| 0 <= j < k ==> a[j] == b[j]);
    if k < i {
        assert(a[k] == b[k]);
    } else if i < k {
        assert(a[i] == b[i]);
    }
}

/// Compares the first `n` bytes of `s1` and `s2`.
pub fn memcmp(s1: &[u8], s2: &[u8], n: usize) -> (r: i32)
    requires
        n <= s1@.len(),
        n <= s2@.len(),
    ensures
        r == bytes_difference_up_to(s1@, s2@, n),
{
    let mut i: usize = 0;
    while i < n
        invariant
            i <= n,
            n <= s1@.len(),
            n <= s2@.len(),
            forall|j: int| 0 <= j < i ==> s1@[j] == s2@[j],
        decreases n - i,
    {
        let a = byte_value(s1[i]);
        let b = byte_value(s2[i]);
        if a != b {
            proof {
                lemma_first_difference_at(s1@, s2@, n, i);
            }
            return a - b;
        }
        i += 1;
    }
    0
}

/// Copies the `n` bytes at `src` of `buf` to `dest` of `buf`; the two ranges may
/// overlap.
pub fn memmove(buf: &mut [u8], dest: usize, src: usize, n: usize)
    requires
        dest + n <= old(buf)@.len(),
        src + n <= old(buf)@.len(),
    ensures
        final(buf)@ == old(buf)@.subrange(0, dest as int) + old(buf)@.subrange(
            src as int,
            src + n,
        ) + old(buf)@.subrange(dest + n, old(buf)@.len() as int),
{
    let len = buf.len();
    let mut copy: Vec<u8> = Vec::new();
    let mut i: usize = 0;
    while i < n
        invariant
            i <= n,
            len == buf@.len(),
            src + n <= buf@.len(),
            buf@ == old(buf)@,
            copy@ == buf@.subrange(src as int, src + i),
        decreases n - i,
    {
        copy.push(buf[src + i]);
        i += 1;
        assert(copy@ =~= buf@.subrange(src as int, src + i));
    }
    let mut j: usize = 0;
    while j < n
        invariant
            j <= n,
            len == buf@.len(),
            copy@.len() == n,
            dest + n <= buf@.len(),
            buf@.len() == old(buf)@.len(),
            copy@ == old(buf)@.subrange(src as int, src + n),
            forall|k: int| 0 <= k < dest ==> #[trigger] buf@[k] == old(buf)@[k],
            forall|k: int| dest <= k < dest + j ==> #[trigger] buf@[k] == copy@[k - dest],
            forall|k: int| dest + j <= k < buf@.len() ==> #[trigger] buf@[k] == old(buf)@[k],
        decreases n - j,
    {
        buf[dest + j] = copy[j];
        j += 1;
    }
    assert(buf@ =~= old(buf)@.subrange(0, dest as int) + old(buf)@.subrange(src as int, src + n)
        + old(buf)@.subrange(dest + n, old(buf)@.len() as int));
}

/// Length of the C string at the start of `s`.
pub fn strlen(s: &[u8]) -> (r: usize)
    requires
        has_nul(s@),
    ensures
        is_c_len(s@, r as int),
        r == c_len(s@),
{
    let n = s.len();
    let mut i: usize = 0;
    loop
        invariant
            i < n,
            n == s@.len(),
            has_nul(s@),
            forall|j: int| 0 <= j < i ==> s@[j] != 0,
        decreases n - i,
    {
        if s[i] == 0 {
            proof {
                lemma_c_len(s@, i as int);
            }
            return i;
        }
        proof {
            let k = choose|k: int| 0 <= k < s@.len() && s@[k] == 0;
            assert(k != i);
            if k < i {
                assert(s@[k] != 0);
            }
        }
        i += 1;
    }
}

/// Copies the C string `s`, its NUL included, into `d`, but not more than `n` bytes.
pub fn strncpy(d: &mut [u8], s: &[u8], n: usize)
    requires
        has_nul(s@),
        if c_len(s@) + 1 <= n {
            c_len(s@) + 1
        } else {
            n as int
        } <= old(d)@.len(),
    ensures
        ({
            let k = if c_len(s@) + 1 <= n {
                c_len(s@) + 1
            } else {
                n as int
            };
            final(d)@ == s@.subrange(0, k) + old(d)@.subrange(k, old(d)@.len() as int)
        }),
{
    let total = s.len();  // bounds the length by usize::MAX for what follows
    let len = strlen(s);
    let copy_len = if len + 1 <= n {
        len + 1
    } else {
        n
    };
    memcpy(d, s, copy_len);
}

/// A copy of the C string `s`, its NUL included.
pub fn strdup(s: &[u8]) -> (r: Vec<u8>)
    requires
        has_nul(s@),
    ensures
        r@ == s@.subrange(0, c_len(s@) + 1),
{
    let total = s.len();  // bounds the length by usize::MAX for what follows
    let length = strlen(s) + 1;
    let mut ret: Vec<u8> = Vec::new();
    let mut i: usize = 0;
    while i < length
        invariant
            i <= length,
            length <= s@.len(),
            ret@ == s@.subrange(0, i as int),
        decreases length - i,
    {
        ret.push(s[i]);
        i += 1;
        assert(ret@ =~= s@.subrange(0, i as int));
    }
    ret
}

/// A byte read as a C `char`, which is signed, widened to an `int`.
pub open spec fn signed_char(b: u8) -> int {
    if b < 128 {
        b as int
    } else {
        b - 256
    }
}

/// The negation of a signed char, in its own width: the lowest value stays as it is.
pub open spec fn negated_char(b: u8) -> int {
    if b == 128 {
        -128
    } else {
        -signed_char(b)
    }
}

/// What comparing two C strings whose lengths are capped at `len1` and `len2`
/// answers: the byte difference of the first differing byte of the common length;
/// else 0 for equal lengths; else the next byte of the longer one, as a signed char,
/// negated when it belongs to `b`.
pub open spec fn str_compare(a: Seq<u8>, b: Seq<u8>, len1: int, len2: int) -> int {
    let m = if len1 <= len2 {
        len1
    } else {
        len2
    };
    if bytes_difference(a, b, m) != 0 {
        bytes_difference(a, b, m)
    } else if len1 == len2 {
        0
    } else if len1 > len2 {
        signed_char(a[m])
    } else {
        negated_char(b[m])
    }
}

/// What comparing two C strings whose lengths are capped at `len1` and `len2`
/// answers.
pub open spec fn str_compare_at(a: Seq<u8>, b: Seq<u8>, len1: usize, len2: usize) -> int {
    str_compare(a, b, len1 as int, len2 as int)
}

/// A byte as a C `char`, widened to an `int`.
fn signed_char_value(b: u8) -> (r: i32)
    ensures
        r == signed_char(b),
{
    if b < 128 {
        b as i32
    } else {
        b as i32 - 256
    }
}

/// The negation of a byte read as a C `char`, in the width of a `char`.
fn negated_char_value(b: u8) -> (r: i32)
    ensures
        r == negated_char(b),
{
    if b == 128 {
        -128
    } else if b < 128 {
        -(b as i32)
    } else {
        256 - b as i32
    }
}

/// The tail of `strcmp` and `strncmp`, once the lengths are known.
fn compare_lengths(s1: &[u8], s2: &[u8], s1_len: usize, s2_len: usize) -> (r: i32)
    requires
        s1_len < s1@.len(),
        s2_len < s2@.len(),
    ensures
        r == str_compare_at(s1@, s2@, s1_len, s2_len),
{
    let common = if s1_len <= s2_len {
        s1_len
    } else {
        s2_len
    };
    let diff = memcmp(s1, s2, common);
    if diff != 0 {
        return diff;
    }
    if s1_len == s2_len {
        return 0;
    }
    if s1_len > s2_len {
        return signed_char_value(s1[common]);
    }
    negated_char_value(s2[common])
}

/// The length of the C string at the start of `s`, but at most `n`.
pub open spec fn capped_c_len(s: Seq<u8>, n: usize) -> int {
    if c_len(s) <= n {
        c_len(s)
    } else {
        n as int
    }
}

/// Compares the C strings `s1` and `s2`.
pub fn strcmp(s1: &[u8], s2: &[u8]) -> (r: i32)
    requires
        has_nul(s1@),
        has_nul(s2@),
    ensures
        r == str_compare(s1@, s2@, c_len(s1@), c_len(s2@)),
{
    let s1_len = strlen(s1);
    let s2_len = strlen(s2);
    compare_lengths(s1, s2, s1_len, s2_len)
}

/// Compares at most the first `n` bytes of the C strings `s1` and `s2`.
pub fn strncmp(s1: &[u8], s2: &[u8], n: usize) -> (r: i32)
    requires
        has_nul(s1@),
        has_nul(s2@),
    ensures
        r == str_compare(s1@, s2@, capped_c_len(s1@, n), capped_c_len(s2@, n)),
{
    let l1 = strlen(s1);
    let l2 = strlen(s2);
    let s1_len = if l1 <= n {
        l1
    } else {
        n
    };
    let s2_len = if l2 <= n {
        l2
    } else {
        n
    };
    compare_lengths(s1, s2, s1_len, s2_len)
}

/// The ASCII lowercase of a byte.
pub open spec fn ascii_lower(b: u8) -> u8 {
    if 65 <= b <= 90 {
        (b + 32) as u8
    } else {
        b
    }
}

/// The ASCII uppercase of a byte.
pub open spec fn ascii_upper(b: u8) -> u8 {
    if 97 <= b <= 122 {
        (b - 32) as u8
    } else {
        b
    }
}

/// The C string at the start of `s` in ASCII lowercase, NUL terminated.
fn lowercase_c_string(s: &[u8]) -> (r: Vec<u8>)
    requires
        has_nul(s@),
    ensures
        r@.len() == c_len(s@) + 1,
        is_c_len(r@, c_len(s@)),
        forall|i: int| 0 <= i < c_len(s@) ==> #[trigger] r@[i] == ascii_lower(s@[i]),
{
    let len = strlen(s);
    let mut r: Vec<u8> = Vec::new();
    let mut i: usize = 0;
    while i < len
        invariant
            i <= len,
            is_c_len(s@, len as int),
            r@.len() == i,
            forall|j: int| 0 <= j < i ==> #[trigger] r@[j] == ascii_lower(s@[j]),
        decreases len - i,
    {
        let b = s[i];
        let lower = if b >= 65 && b <= 90 {
            b + 32
        } else {
            b
        };
        r.push(lower);
        i += 1;
    }
    r.push(0);
    proof {
        assert forall|j: int| 0 <= j < len implies r@[j] != 0 by {
            assert(s@[j] != 0);
        }
    }
    r
}

/// The C string at the start of `s` in ASCII lowercase, NUL terminated.
pub open spec fn lowered(s: Seq<u8>) -> Seq<u8> {
    Seq::new(
        (c_len(s) + 1) as nat,
        |i: int|
            if i < c_len(s) {
                ascii_lower(s[i])
            } else {
                0u8
            },
    )
}

/// Compares at most `n` bytes of the C strings `s1` and `s2`, ignoring ASCII case.
pub fn strncasecmp(s1: &[u8], s2: &[u8], n: usize) -> (r: i32)
    requires
        has_nul(s1@),
        has_nul(s2@),
    ensures
        r == str_compare(lowered(s1@), lowered(s2@), capped_c_len(s1@, n), capped_c_len(s2@, n)),
{
    let a = lowercase_c_string(s1);
    let b = lowercase_c_string(s2);
    proof {
        lemma_c_len(a@, c_len(s1@));
        lemma_c_len(b@, c_len(s2@));
        assert(a@ =~= lowered(s1@));
        assert(b@ =~= lowered(s2@));
    }
    strncmp(a.as_slice(), b.as_slice(), n)
}

/// The ASCII uppercase of the low byte of `val`.
pub fn toupper(val: i32) -> (r: i32)
    ensures
        r == ascii_upper(val as u8),
{
    let b = val as u8;
    if b >= 97 && b <= 122 {
        (b - 32) as i32
    } else {
        b as i32
    }
}

/// What a conversion prints.
#[derive(Clone, Copy, PartialEq, Eq, Structural)]
pub enum Format {
    Char,
    Int,
    String,
    Hex,
    Octal,
    Pointer,
    Unknown(u8),
}

/// The conversion a conversion character asks for.
pub open spec fn format_of(b: u8) -> Format {
    if b == 105 || b == 100 {
        Format::Int
    } else if b == 99 {
        Format::Char
    } else if b == 120 {
        Format::Hex
    } else if b == 115 {
        Format::String
    } else if b == 111 {
        Format::Octal
    } else if b == 112 {
        Format::Pointer
    } else {
        Format::Unknown(b)
    }
}

impl Format {
    /// Bytes of the argument the conversion takes: a C `int` for characters and
    /// numbers, a pointer for strings and pointers. Unknown conversions have none.
    pub fn to_size(&self) -> (r: Result<i32, ()>)
        ensures
            match *self {
                Format::Unknown(_) => r is Err,
                Format::Pointer | Format::String => r == Ok::<i32, ()>(
                    vstd::layout::size_of::<usize>() as i32,
                ),
                _ => r == Ok::<i32, ()>(4),
            },
    {
        proof {
            broadcast use vstd::layout::layout_of_primitives;

        }
        match self {
            Format::Octal | Format::Char | Format::Hex | Format::Int => Ok(
                core::mem::size_of::<i32>() as i32,
            ),
            Format::Pointer | Format::String => Ok(core::mem::size_of::<usize>() as i32),
            Format::Unknown(_) => Err(()),
        }
    }
}

/// A parsed conversion specification.
pub struct ParsedFormatSpecifier {
    pub format_specifier_length: usize,
    pub leading_char: Option<u8>,
    pub output_length: Option<u32>,
    pub precision: Option<u32>,
    pub format: Format,
}

/// Whether `b` is an ASCII digit.
pub open spec fn is_digit(b: u8) -> bool {
    48 <= b <= 57
}

/// Index of the first byte of `s`, from `i` on, that is not a digit.
pub open spec fn digits_end(s: Seq<u8>, i: int) -> int
    decreases s.len() - i,
{
    if i < 0 || i >= s.len() || !is_digit(s[i]) {
        i
    } else {
        digits_end(s, i + 1)
    }
}

/// The decimal value of the digits `s[i..j]`.
pub open spec fn decimal_value(s: Seq<u8>, i: int, j: int) -> nat
    decreases j - i,
{
    if j <= i {
        0
    } else {
        decimal_value(s, i, j - 1) * 10 + (s[j - 1] - 48) as nat
    }
}

/// Whether `s` holds a NUL byte at `at` or after.
pub open spec fn nul_from(s: Seq<u8>, at: int) -> bool {
    exists|k: int| at <= k < s.len() && s[k] == 0
}

/// Where the precision at `at` of `s` ends and what it is: a dot and the digits
/// after it, or nothing.
pub open spec fn precision_at(s: Seq<u8>, at: int) -> (int, Option<u32>) {
    if s[at] != 46 {
        (at, None)
    } else {
        let e = digits_end(s, at + 1);
        (e, Some(decimal_value(s, at + 1, e) as u32))
    }
}

/// Whether a precision at `at` of `s`, if there is one, has digits that fit in a
/// `u32`.
pub open spec fn precision_parses(s: Seq<u8>, at: int) -> bool {
    s[at] == 46 ==> {
        let e = digits_end(s, at + 1);
        e > at + 1 && decimal_value(s, at + 1, e) <= u32::MAX
    }
}

/// The conversion at `at` of `s`, which starts with `%`: its length, precision and
/// format.
pub open spec fn specifier_at(s: Seq<u8>, at: int) -> (int, Option<u32>, Format) {
    let (e, precision) = precision_at(s, at + 1);
    (e + 1 - at, precision, format_of(s[e]))
}

/// Whether the conversion at `at` of `s` parses and is one the engine prints.
pub open spec fn specifier_ok(s: Seq<u8>, at: int) -> bool {
    &&& precision_parses(s, at + 1)
    &&& !(specifier_at(s, at).2 is Unknown)
}

proof fn lemma_digits_end(s: Seq<u8>, i: int, k: int)
    requires
        0 <= i <= k < s.len(),
        !is_digit(s[k]),
    ensures
        i <= digits_end(s, i) <= k,
        forall|j: int| i <= j < digits_end(s, i) ==> is_digit(#[trigger] s[j]),
        !is_digit(s[digits_end(s, i)]),
    decreases k - i,
{
    if is_digit(s[i]) {
        lemma_digits_end(s, i + 1, k);
    }
}

proof fn lemma_decimal_value_grows(s: Seq<u8>, i: int, k: int, j: int)
    requires
        i <= k <= j,
        forall|m: int| i <= m < j ==> is_digit(#[trigger] s[m]),
    ensures
        decimal_value(s, i, k) <= decimal_value(s, i, j),
    decreases j - k,
{
    if k < j {
        lemma_decimal_value_grows(s, i, k, j - 1);
        assert(is_digit(s[j - 1]));
    }
}

/// Parses an optional precision (a dot and digits) at `at` of `s`, and returns where
/// it ends with its value.
pub fn parse_precision(s: &[u8], at: usize) -> (r: (usize, Option<u32>))
    requires
        at < s@.len(),
        nul_from(s@, at as int),
        precision_parses(s@, at as int),
    ensures
        r.0 == precision_at(s@, at as int).0,
        r.1 == precision_at(s@, at as int).1,
        r.0 < s@.len(),
        nul_from(s@, r.0 as int),
{
    let n = s.len();
    if s[at] != 46 {
        return (at, None);
    }
    let num_start = at + 1;
    proof {
        let k = choose|k: int| at <= k < s@.len() && s@[k] == 0;
        lemma_digits_end(s@, num_start as int, k);
    }
    let mut p = num_start;
    let mut num: u64 = 0;
    while s[p] >= 48 && s[p] <= 57
        invariant
            num_start <= p <= digits_end(s@, num_start as int),
            digits_end(s@, num_start as int) < n,
            n == s@.len(),
            num == decimal_value(s@, num_start as int, p as int),
            decimal_value(s@, num_start as int, digits_end(s@, num_start as int)) <= u32::MAX,
            forall|j: int|
                num_start <= j < digits_end(s@, num_start as int) ==> is_digit(#[trigger] s@[j]),
            !is_digit(s@[digits_end(s@, num_start as int)]),
        decreases digits_end(s@, num_start as int) - p,
    {
        proof {
            lemma_decimal_value_grows(
                s@,
                num_start as int,
                p + 1,
                digits_end(s@, num_start as int),
            );
        }
        num = num * 10 + (s[p] - 48) as u64;
        p += 1;
    }
    (p, Some(num as u32))
}

/// The conversion a conversion character `b` asks for.
pub fn parse_format(b: u8) -> (r: Format)
    ensures
        r == format_of(b),
{
    if b == 105 || b == 100 {
        Format::Int
    } else if b == 99 {
        Format::Char
    } else if b == 120 {
        Format::Hex
    } else if b == 115 {
        Format::String
    } else if b == 111 {
        Format::Octal
    } else if b == 112 {
        Format::Pointer
    } else {
        Format::Unknown(b)
    }
}

/// Parses the conversion specification at `at` of `s`; `None` unless it starts with
/// `%`.
pub fn parse_format_specifier(s: &[u8], at: usize) -> (r: Option<ParsedFormatSpecifier>)
    requires
        at < s@.len(),
        nul_from(s@, at as int),
        s@[at as int] == 37 ==> precision_parses(s@, at + 1),
    ensures
        s@[at as int] != 37 <==> r is None,
        r matches Some(p) ==> {
            let (len, precision, format) = specifier_at(s@, at as int);
            &&& p.format_specifier_length == len
            &&& p.precision == precision
            &&& p.format == format
            &&& p.leading_char is None
            &&& p.output_length is None
            &&& at + len <= s@.len()
        },
{
    if s[at] != 37 {
        return None;
    }
    proof {
        let k = choose|k: int| at <= k < s@.len() && s@[k] == 0;
        assert(k != at);
        assert(nul_from(s@, at + 1));
    }
    let (e, precision) = parse_precision(s, at + 1);
    let format = parse_format(s[e]);
    Some(
        ParsedFormatSpecifier {
            format_specifier_length: e + 1 - at,
            leading_char: None,
            output_length: None,
            precision,
            format,
        },
    )
}

/// The ASCII character of digit `d` (lowercase letters past 9).
pub open spec fn digit_char(d: nat) -> u8 {
    if d < 10 {
        (48 + d) as u8
    } else {
        (87 + d) as u8
    }
}

/// The digits of `n` in `base`, most significant first, without leading zeros.
pub open spec fn digits(n: nat, base: nat) -> Seq<u8>
    decreases n,
{
    if base < 2 || n < base {
        seq![digit_char(n)]
    } else {
        proof {
            vstd::arithmetic::div_mod::lemma_div_decreases(n as int, base as int);
        }
        digits(n / base, base).push(digit_char(n % base))
    }
}

/// `n` in `base`, as ASCII digits.
pub(crate) fn format_unsigned(n: u64, base: u64) -> (r: Vec<u8>)
    requires
        2 <= base <= 16,
    ensures
        r@ == digits(n as nat, base as nat),
    decreases n,
{
    if n < base {
        let mut v: Vec<u8> = Vec::new();
        v.push(digit_byte(n));
        v
    } else {
        proof {
            vstd::arithmetic::div_mod::lemma_div_decreases(n as int, base as int);
        }
        let mut v = format_unsigned(n / base, base);
        v.push(digit_byte(n % base));
        v
    }
}

/// The ASCII character of digit `d`.
fn digit_byte(d: u64) -> (r: u8)
    requires
        d < 16,
    ensures
        r == digit_char(d as nat),
{
    if d < 10 {
        48 + d as u8
    } else {
        87 + d as u8
    }
}

/// `v` in decimal, with a minus sign when negative.
pub open spec fn decimal_i32(v: i32) -> Seq<u8> {
    if v < 0 {
        seq![45u8] + digits((-v) as nat, 10)
    } else {
        digits(v as nat, 10)
    }
}

/// `s` padded on the left with `val` to `len` bytes, when a length is given and `s`
/// is shorter.
pub open spec fn left_pad_spec(s: Seq<u8>, val: u8, len: Option<u32>) -> Seq<u8> {
    match len {
        None => s,
        Some(l) => if l <= s.len() {
            s
        } else {
            Seq::new((l - s.len()) as nat, |i: int| val) + s
        },
    }
}

/// Pads `s` on the left with `val` to `len` bytes.
pub fn left_pad(s: Vec<u8>, val: u8, len: Option<u32>) -> (r: Vec<u8>)
    ensures
        r@ == left_pad_spec(s@, val, len),
{
    let len = match len {
        Some(v) => v,
        None => {
            return s;
        },
    };
    if len as usize <= s.len() {
        return s;
    }
    let extra_chars = len as usize - s.len();
    let mut r: Vec<u8> = Vec::new();
    let mut i: usize = 0;
    while i < extra_chars
        invariant
            i <= extra_chars,
            r@ == Seq::new(i as nat, |j: int| val),
        decreases extra_chars - i,
    {
        r.push(val);
        i += 1;
        assert(r@ =~= Seq::new(i as nat, |j: int| val));
    }
    let mut s = s;
    r.append(&mut s);
    r
}

/// The UTF-8 encoding of the character whose code is the byte `b`.
pub open spec fn char_utf8(b: u8) -> Seq<u8> {
    if b < 128 {
        seq![b]
    } else {
        seq![(192 + b / 64) as u8, (128 + b % 64) as u8]
    }
}

/// An argument handed to the printf engine, read the way its conversion says.
pub enum PrintfArg {
    /// The byte of a `%c`.
    Char(u8),
    /// The `int` of a `%d`, `%i`, `%x` or `%o`.
    Int(i32),
    /// The C string of a `%s` (its bytes before the NUL), `None` for a null pointer.
    Str(Option<Vec<u8>>),
    /// The address of a `%p`.
    Pointer(usize),
}

/// Whether `arg` is what conversion `format` reads.
pub open spec fn arg_fits(format: Format, arg: PrintfArg) -> bool {
    match format {
        Format::Char => arg is Char,
        Format::Int | Format::Hex | Format::Octal => arg is Int,
        Format::String => arg is Str,
        Format::Pointer => arg is Pointer,
        Format::Unknown(_) => false,
    }
}

/// What a conversion prints for `arg`: characters in UTF-8, numbers in decimal,
/// hexadecimal or octal (negative ones in hexadecimal and octal as their 32 bit two's
/// complement) padded with zeros to the precision, strings as they are or `(null)`,
/// pointers as `0x` and hexadecimal.
pub open spec fn rendered(format: Format, precision: Option<u32>, arg: PrintfArg) -> Seq<u8> {
    match arg {
        PrintfArg::Char(b) => char_utf8(b),
        PrintfArg::Int(v) => match format {
            Format::Hex => left_pad_spec(digits(v as u32 as nat, 16), 48, precision),
            Format::Octal => left_pad_spec(digits(v as u32 as nat, 8), 48, precision),
            _ => left_pad_spec(decimal_i32(v), 48, precision),
        },
        PrintfArg::Str(None) => seq![40u8, 110, 117, 108, 108, 41],
        PrintfArg::Str(Some(bytes)) => bytes@,
        PrintfArg::Pointer(a) => seq![48u8, 120] + digits(a as nat, 16),
    }
}

/// Prints `arg` as `format` asks.
fn render(format: Format, precision: Option<u32>, arg: PrintfArg) -> (r: Vec<u8>)
    requires
        arg_fits(format, arg),
    ensures
        r@ == rendered(format, precision, arg),
{
    match arg {
        PrintfArg::Char(b) => {
            let mut v: Vec<u8> = Vec::new();
            if b < 128 {
                v.push(b);
            } else {
                v.push(192 + b / 64);
                v.push(128 + b % 64);
            }
            assert(v@ =~= char_utf8(b));
            v
        },
        PrintfArg::Int(v) => {
            match format {
                Format::Hex => left_pad(format_unsigned(v as u32 as u64, 16), 48, precision),
                Format::Octal => left_pad(format_unsigned(v as u32 as u64, 8), 48, precision),
                _ => {
                    let s = if v < 0 {
                        let mut s: Vec<u8> = Vec::new();
                        s.push(45);
                        let mut d = format_unsigned((-(v as i64)) as u64, 10);
                        s.append(&mut d);
                        s
                    } else {
                        format_unsigned(v as u64, 10)
                    };
                    left_pad(s, 48, precision)
                },
            }
        },
        PrintfArg::Str(None) => {
            let v: Vec<u8> = vec![40u8, 110, 117, 108, 108, 41];
            assert(v@ =~= seq![40u8, 110, 117, 108, 108, 41]);
            v
        },
        PrintfArg::Str(Some(bytes)) => bytes,
        PrintfArg::Pointer(a) => {
            let mut v: Vec<u8> = Vec::new();
            v.push(48);
            v.push(120);
            let mut d = format_unsigned(a as u64, 16);
            v.append(&mut d);
            v
        },
    }
}

/// Writes into a caller's buffer of `size` bytes, dropping what does not fit.
pub struct PointerWriter {
    buf: Vec<u8>,
    size: usize,
}

impl PointerWriter {
    /// The bytes written and not yet taken.
    pub closed spec fn written(&self) -> Seq<u8> {
        self.buf@
    }

    /// Room left in the buffer.
    pub closed spec fn room(&self) -> nat {
        self.size as nat
    }

    /// A writer for a buffer of `size` bytes.
    pub fn new(size: usize) -> (r: PointerWriter)
        ensures
            r.written() == Seq::<u8>::empty(),
            r.room() == size,
    {
        PointerWriter { buf: Vec::new(), size }
    }

    /// Writes as much of `s` as there is room for.
    pub fn write_str(&mut self, s: &[u8])
        ensures
            ({
                let k = if s@.len() <= old(self).room() {
                    s@.len() as int
                } else {
                    old(self).room() as int
                };
                &&& final(self).written() == old(self).written() + s@.subrange(0, k)
                &&& final(self).room() == old(self).room() - k
            }),
    {
        let len = if s.len() <= self.size {
            s.len()
        } else {
            self.size
        };
        let mut i: usize = 0;
        while i < len
            invariant
                i <= len,
                len <= s@.len(),
                len <= self.size,
                self.size == old(self).size,
                self.buf@ == old(self).buf@ + s@.subrange(0, i as int),
            decreases len - i,
        {
            self.buf.push(s[i]);
            i += 1;
            assert(self.buf@ =~= old(self).buf@ + s@.subrange(0, i as int));
        }
        self.size = self.size - len;
    }

    /// Takes the bytes written so far, for copying into the buffer.
    pub fn take_written(&mut self) -> (r: Vec<u8>)
        ensures
            r@ == old(self).written(),
            final(self).written() == Seq::<u8>::empty(),
            final(self).room() == old(self).room(),
    {
        let mut taken: Vec<u8> = Vec::new();
        core::mem::swap(&mut taken, &mut self.buf);
        taken
    }
}

/// Where the printf engine's output goes.
pub enum PrintfOutput {
    /// Standard output: everything is kept.
    Printer(Vec<u8>),
    /// A caller's buffer.
    Buffer(PointerWriter),
}

/// What a sink holds after `bytes` are written to it, given what it held and the room
/// it had (`None`: no limit).
pub open spec fn sink_after(written: Seq<u8>, room: Option<nat>, bytes: Seq<u8>) -> (
    Seq<u8>,
    Option<nat>,
) {
    match room {
        None => (written + bytes, None),
        Some(r) => if bytes.len() <= r {
            (written + bytes, Some((r - bytes.len()) as nat))
        } else {
            (written + bytes.subrange(0, r as int), Some(0))
        },
    }
}

impl PrintfOutput {
    /// The bytes written and not yet taken.
    pub open spec fn written(&self) -> Seq<u8> {
        match self {
            PrintfOutput::Printer(v) => v@,
            PrintfOutput::Buffer(w) => w.written(),
        }
    }

    /// Room left, `None` when there is no limit.
    pub open spec fn room(&self) -> Option<nat> {
        match self {
            PrintfOutput::Printer(_) => None,
            PrintfOutput::Buffer(w) => Some(w.room()),
        }
    }

    fn write_bytes(&mut self, s: &[u8])
        ensures
            (final(self).written(), final(self).room()) == sink_after(
                old(self).written(),
                old(self).room(),
                s@,
            ),
            *old(self) is Printer <==> *final(self) is Printer,
    {
        match self {
            PrintfOutput::Printer(v) => {
                append_bytes(v, s);
            },
            PrintfOutput::Buffer(w) => {
                w.write_str(s);
            },
        }
    }
}

pub(crate) fn append_bytes(v: &mut Vec<u8>, s: &[u8])
    ensures
        final(v)@ == old(v)@ + s@,
{
    let mut i: usize = 0;
    while i < s.len()
        invariant
            i <= s@.len(),
            v@ == old(v)@ + s@.subrange(0, i as int),
        decreases s@.len() - i,
    {
        v.push(s[i]);
        i += 1;
        assert(v@ =~= old(v)@ + s@.subrange(0, i as int));
    }
    assert(s@.subrange(0, s@.len() as int) =~= s@);
}

/// Index of the first byte of `s`, from `i` on, that starts a conversion (`%`) or
/// ends the string (NUL).
pub open spec fn scan_end(s: Seq<u8>, i: int) -> int
    decreases s.len() - i,
{
    if i < 0 || i >= s.len() || s[i] == 37 || s[i] == 0 {
        i
    } else {
        scan_end(s, i + 1)
    }
}

proof fn lemma_scan_end(s: Seq<u8>, i: int, k: int)
    requires
        0 <= i <= k < s.len(),
        s[k] == 0,
    ensures
        i <= scan_end(s, i) <= k,
        s[scan_end(s, i)] == 37 || s[scan_end(s, i)] == 0,
        forall|j: int| i <= j < scan_end(s, i) ==> #[trigger] s[j] != 37 && s[j] != 0,
    decreases k - i,
{
    if s[i] != 37 && s[i] != 0 {
        lemma_scan_end(s, i + 1, k);
    }
}

/// The first NUL byte of `s` at `at` or after.
fn find_nul_from(s: &[u8], at: usize) -> (r: Option<usize>)
    ensures
        r is None <==> !nul_from(s@, at as int),
        r matches Some(k) ==> at <= k < s@.len() && s@[k as int] == 0,
{
    let mut k = at;
    while k < s.len()
        invariant
            at <= k,
            forall|j: int| at <= j < k && j < s@.len() ==> s@[j] != 0,
        decreases s@.len() - k,
    {
        if s[k] == 0 {
            return Some(k);
        }
        k += 1;
    }
    None
}

/// Checks [`precision_parses`].
fn check_precision(s: &[u8], at: usize) -> (r: bool)
    requires
        at < s@.len(),
        nul_from(s@, at as int),
    ensures
        r == precision_parses(s@, at as int),
{
    if s[at] != 46 {
        return true;
    }
    let num_start = at + 1;
    proof {
        let k = choose|k: int| at <= k < s@.len() && s@[k] == 0;
        lemma_digits_end(s@, num_start as int, k);
    }
    let mut p = num_start;
    let mut num: u64 = 0;
    while s[p] >= 48 && s[p] <= 57
        invariant
            s@[at as int] == 46,
            num_start == at + 1,
            num_start <= p <= digits_end(s@, num_start as int),
            digits_end(s@, num_start as int) < s@.len(),
            num == decimal_value(s@, num_start as int, p as int),
            num <= u32::MAX,
            forall|j: int|
                num_start <= j < digits_end(s@, num_start as int) ==> is_digit(#[trigger] s@[j]),
            !is_digit(s@[digits_end(s@, num_start as int)]),
        decreases digits_end(s@, num_start as int) - p,
    {
        num = num * 10 + (s[p] - 48) as u64;
        p += 1;
        assert(num == decimal_value(s@, num_start as int, p as int));
        if num > 0xffff_ffff {
            proof {
                lemma_decimal_value_grows(
                    s@,
                    num_start as int,
                    p as int,
                    digits_end(s@, num_start as int),
                );
            }
            return false;
        }
    }
    p > num_start
}

/// Checks [`specifier_ok`] at `at`, where `s` holds a `%`.
fn check_specifier(s: &[u8], at: usize) -> (r: bool)
    requires
        at < s@.len(),
        nul_from(s@, at as int),
        s@[at as int] == 37,
    ensures
        r == specifier_ok(s@, at as int),
{
    let n = s.len();  // bounds the length by usize::MAX for what follows
    proof {
        let k = choose|k: int| at <= k < s@.len() && s@[k] == 0;
        assert(k != at);
        assert(nul_from(s@, at + 1));
    }
    if !check_precision(s, at + 1) {
        return false;
    }
    let (e, _) = parse_precision(s, at + 1);
    match parse_format(s[e]) {
        Format::Unknown(_) => false,
        _ => true,
    }
}

/// A printf in progress: the format string, how far it has been printed, and the
/// output. The caller alternates `advance`, which prints up to the next conversion,
/// and `push_arg`, which prints that conversion's argument.
pub struct PrintfWriter {
    format_string: Vec<u8>,
    pos: usize,
    writer: PrintfOutput,
    write_null: bool,
}

impl PrintfWriter {
    /// The format string, its NUL included.
    pub closed spec fn format(&self) -> Seq<u8> {
        self.format_string@
    }

    /// How far the format string has been printed.
    pub closed spec fn pos(&self) -> int {
        self.pos as int
    }

    /// The output written and not yet taken.
    pub closed spec fn written(&self) -> Seq<u8> {
        self.writer.written()
    }

    /// Room left in the output, `None` when there is no limit.
    pub closed spec fn room(&self) -> Option<nat> {
        self.writer.room()
    }

    /// Whether the end of the string, its NUL, is printed too.
    pub closed spec fn writes_null(&self) -> bool {
        self.write_null
    }

    /// A printf of `format_string` to standard output.
    pub fn printf_parser_new(format_string: Vec<u8>) -> (r: PrintfWriter)
        ensures
            r.format() == format_string@,
            r.pos() == 0,
            r.written() == Seq::<u8>::empty(),
            r.room() is None,
            !r.writes_null(),
    {
        PrintfWriter {
            format_string,
            pos: 0,
            writer: PrintfOutput::Printer(Vec::new()),
            write_null: false,
        }
    }

    /// A printf of `format_string` into a buffer of `size` bytes; the NUL is printed
    /// too.
    pub fn printf_parser_new_with_buf(format_string: Vec<u8>, size: u32) -> (r: PrintfWriter)
        ensures
            r.format() == format_string@,
            r.pos() == 0,
            r.written() == Seq::<u8>::empty(),
            r.room() == Some(size as nat),
            r.writes_null(),
    {
        PrintfWriter {
            format_string,
            pos: 0,
            writer: PrintfOutput::Buffer(PointerWriter::new(size as usize)),
            write_null: true,
        }
    }

    /// A printf of `format_string` to `file`, which must be standard output.
    pub fn printf_parser_new_with_file(format_string: Vec<u8>, file: &File) -> (r: PrintfWriter)
        requires
            *file is Stdout,
        ensures
            r.format() == format_string@,
            r.pos() == 0,
            r.written() == Seq::<u8>::empty(),
            r.room() is None,
            !r.writes_null(),
    {
        Self::printf_parser_new(format_string)
    }

    /// Whether [`PrintfWriter::advance`] can be called: the format string holds a NUL
    /// from the current position on, and the conversion it stops at, if any, parses and
    /// is one the engine prints.
    pub fn can_advance(&self) -> (r: bool)
        ensures
            r == (self.pos() < self.format().len() && nul_from(self.format(), self.pos())
                && (self.format()[scan_end(self.format(), self.pos())] == 37 ==> specifier_ok(
                self.format(),
                scan_end(self.format(), self.pos()),
            ))),
    {
        let s = self.format_string.as_slice();
        if self.pos >= s.len() {
            return false;
        }
        let nul = match find_nul_from(s, self.pos) {
            Some(k) => k,
            None => {
                return false;
            },
        };
        proof {
            lemma_scan_end(s@, self.pos as int, nul as int);
        }
        let mut k = self.pos;
        while s[k] != 37 && s[k] != 0
            invariant
                self.pos <= k <= scan_end(s@, self.pos as int),
                scan_end(s@, self.pos as int) <= nul < s@.len(),
                s@[scan_end(s@, self.pos as int)] == 37 || s@[scan_end(s@, self.pos as int)] == 0,
                forall|j: int| self.pos <= j < scan_end(s@, self.pos as int) ==> #[trigger] s@[j] != 37 && s@[j] != 0,
            decreases scan_end(s@, self.pos as int) - k,
        {
            k += 1;
        }
        if s[k] == 37 {
            proof {
                assert(nul_from(s@, k as int));
            }
            check_specifier(s, k)
        } else {
            true
        }
    }

    /// Whether [`PrintfWriter::push_arg`] can be called with `arg`: the format string
    /// is at a conversion that parses, is one the engine prints, and takes `arg`.
    pub fn can_push(&self, arg: &PrintfArg) -> (r: bool)
        ensures
            r == (self.pos() < self.format().len() && nul_from(self.format(), self.pos())
                && self.format()[self.pos()] == 37 && specifier_ok(self.format(), self.pos())
                && arg_fits(specifier_at(self.format(), self.pos()).2, *arg)),
    {
        let s = self.format_string.as_slice();
        if self.pos >= s.len() {
            return false;
        }
        if find_nul_from(s, self.pos).is_none() {
            return false;
        }
        if s[self.pos] != 37 || !check_specifier(s, self.pos) {
            return false;
        }
        let spec = match parse_format_specifier(s, self.pos) {
            Some(spec) => spec,
            None => {
                return false;
            },
        };
        match spec.format {
            Format::Char => match arg {
                PrintfArg::Char(_) => true,
                _ => false,
            },
            Format::Int | Format::Hex | Format::Octal => match arg {
                PrintfArg::Int(_) => true,
                _ => false,
            },
            Format::String => match arg {
                PrintfArg::Str(_) => true,
                _ => false,
            },
            Format::Pointer => match arg {
                PrintfArg::Pointer(_) => true,
                _ => false,
            },
            Format::Unknown(_) => false,
        }
    }

    /// The conversion the next argument is for, when the format string is at one.
    pub fn pending_format(&self) -> (r: Option<Format>)
        requires
            self.pos() < self.format().len(),
            nul_from(self.format(), self.pos()),
            self.format()[self.pos()] == 37 ==> precision_parses(self.format(), self.pos() + 1),
        ensures
            self.format()[self.pos()] != 37 <==> r is None,
            r matches Some(f) ==> f == specifier_at(self.format(), self.pos()).2,
    {
        match parse_format_specifier(self.format_string.as_slice(), self.pos) {
            Some(spec) => Some(spec.format),
            None => None,
        }
    }

    /// Prints the format string up to the next conversion, or up to its end (and the
    /// NUL when the output is a buffer), and returns the size of the argument that
    /// conversion takes, 0 at the end.
    pub fn advance(&mut self) -> (r: i32)
        requires
            old(self).pos() < old(self).format().len(),
            nul_from(old(self).format(), old(self).pos()),
            old(self).format()[scan_end(old(self).format(), old(self).pos())] == 37
                ==> specifier_ok(old(self).format(), scan_end(old(self).format(), old(self).pos())),
        ensures
            ({
                let s = old(self).format();
                let k = scan_end(s, old(self).pos());
                let end = if s[k] == 0 && old(self).writes_null() {
                    k + 1
                } else {
                    k
                };
                &&& final(self).format() == s
                &&& final(self).writes_null() == old(self).writes_null()
                &&& final(self).pos() == end
                &&& (final(self).written(), final(self).room()) == sink_after(
                    old(self).written(),
                    old(self).room(),
                    s.subrange(old(self).pos(), end),
                )
                &&& s[k] == 0 ==> r == 0
                &&& s[k] == 37 ==> match specifier_at(s, k).2 {
                    Format::Pointer | Format::String => r == vstd::layout::size_of::<usize>(),
                    _ => r == 4,
                }
            }),
    {
        let ghost s = self.format_string@;
        proof {
            let k = choose|k: int| self.pos <= k < s.len() && s[k] == 0;
            lemma_scan_end(s, self.pos as int, k);
        }
        let start = self.pos;
        let mut ret: i32 = 0;
        let n = self.format_string.len();
        loop
            invariant_except_break
                self.pos <= scan_end(s, start as int),
                ret == 0,
            invariant
                self.format_string@ == s,
                n == s.len(),
                start <= self.pos,
                scan_end(s, start as int) < n,
                s[scan_end(s, start as int)] == 37 || s[scan_end(s, start as int)] == 0,
                forall|j: int| start <= j < scan_end(s, start as int) ==> #[trigger] s[j] != 37 && s[j] != 0,
                s[scan_end(s, start as int)] == 37 ==> specifier_ok(s, scan_end(s, start as int)),
                nul_from(s, start as int),
                self.writer == old(self).writer,
                self.write_null == old(self).write_null,
            ensures
                self.format_string@ == s,
                self.writer == old(self).writer,
                self.write_null == old(self).write_null,
                self.pos == if s[scan_end(s, start as int)] == 0 && self.write_null {
                    scan_end(s, start as int) + 1
                } else {
                    scan_end(s, start as int)
                },
                s[scan_end(s, start as int)] == 0 ==> ret == 0,
                s[scan_end(s, start as int)] == 37 ==> match specifier_at(s, scan_end(s, start as int)).2 {
                    Format::Pointer | Format::String => ret == vstd::layout::size_of::<usize>(),
                    _ => ret == 4,
                },
            decreases scan_end(s, start as int) - self.pos,
        {
            let c = self.format_string[self.pos];
            if c == 37 {
                proof {
                    assert(nul_from(s, self.pos as int)) by {
                        let k = choose|k: int| start <= k < s.len() && s[k] == 0;
                        assert(k >= self.pos);
                    }
                }
                let spec = parse_format_specifier(self.format_string.as_slice(), self.pos);
                match spec {
                    Some(spec) => {
                        ret = match spec.format.to_size() {
                            Ok(v) => v,
                            Err(_) => 0,
                        };
                    },
                    None => {},
                }
                break ;
            }
            if c == 0 && self.write_null {
                self.pos = self.pos + 1;
                break ;
            } else if c == 0 {
                break ;
            } else {
                self.pos = self.pos + 1;
            }
        }
        let chunk = slice_copy(self.format_string.as_slice(), start, self.pos);
        self.writer.write_bytes(chunk.as_slice());
        ret
    }

    /// Prints the conversion the format string is at, with its argument `arg`, and
    /// moves past it.
    pub fn push_arg(&mut self, arg: PrintfArg)
        requires
            old(self).pos() < old(self).format().len(),
            nul_from(old(self).format(), old(self).pos()),
            old(self).format()[old(self).pos()] == 37,
            specifier_ok(old(self).format(), old(self).pos()),
            arg_fits(specifier_at(old(self).format(), old(self).pos()).2, arg),
        ensures
            ({
                let s = old(self).format();
                let (len, precision, format) = specifier_at(s, old(self).pos());
                &&& final(self).format() == s
                &&& final(self).writes_null() == old(self).writes_null()
                &&& final(self).pos() == old(self).pos() + len
                &&& (final(self).written(), final(self).room()) == sink_after(
                    old(self).written(),
                    old(self).room(),
                    rendered(format, precision, arg),
                )
            }),
    {
        let n = self.format_string.len();  // bounds the length by usize::MAX for what follows
        let spec = parse_format_specifier(self.format_string.as_slice(), self.pos);
        match spec {
            Some(spec) => {
                self.pos = self.pos + spec.format_specifier_length;
                let out = render(spec.format, spec.precision, arg);
                self.writer.write_bytes(out.as_slice());
            },
            None => {},
        }
    }

    /// Takes the output written so far, for the printer or the caller's buffer.
    pub fn take_output(&mut self) -> (r: Vec<u8>)
        ensures
            r@ == old(self).written(),
            final(self).written() == Seq::<u8>::empty(),
            final(self).room() == old(self).room(),
            final(self).format() == old(self).format(),
            final(self).pos() == old(self).pos(),
            final(self).writes_null() == old(self).writes_null(),
    {
        match &mut self.writer {
            PrintfOutput::Printer(v) => {
                let mut taken: Vec<u8> = Vec::new();
                core::mem::swap(&mut taken, v);
                taken
            },
            PrintfOutput::Buffer(w) => w.take_written(),
        }
    }
}

/// A copy of `s[from..to]`.
pub(crate) fn slice_copy(s: &[u8], from: usize, to: usize) -> (r: Vec<u8>)
    requires
        from <= to <= s@.len(),
    ensures
        r@ == s@.subrange(from as int, to as int),
{
    let mut r: Vec<u8> = Vec::new();
    let mut i = from;
    while i < to
        invariant
            from <= i <= to,
            to <= s@.len(),
            r@ == s@.subrange(from as int, i as int),
        decreases to - i,
    {
        r.push(s[i]);
        i += 1;
        assert(r@ =~= s@.subrange(from as int, i as int));
    }
    r
}

/// A position in a file's contents.
pub struct FileCursor {
    pub pos: usize,
}

/// A file the C programs hold open.
pub enum File {
    Stdout,
    File(FileCursor),
}

impl PartialEq for File {
    /// Standard output equals standard output; open files equal nothing.
    fn eq(&self, other: &File) -> (r: bool) {
        match (self, other) {
            (File::Stdout, File::Stdout) => true,
            _ => false,
        }
    }
}

impl vstd::std_specs::cmp::PartialEqSpecImpl for File {
    open spec fn obeys_eq_spec() -> bool {
        true
    }

    open spec fn eq_spec(&self, other: &File) -> bool {
        *self is Stdout && *other is Stdout
    }
}

/// `whence` of `fseek` that moves relative to the current position.
pub const SEEK_CUR: i32 = 1;

/// `whence` of `fseek` that moves to an absolute position.
pub const SEEK_SET: i32 = 2;

/// `whence` of `fseek` that moves back from the end of the file.
pub const SEEK_END: i32 = 3;

/// Whether `fseek` can move the cursor at `pos` of a file of `file_size` bytes as
/// `offset` and `whence` ask: the new position must be a position.
pub open spec fn seek_ok(pos: usize, offset: i64, whence: i32, file_size: usize) -> bool {
    if whence == SEEK_CUR {
        pos <= i64::MAX && pos + offset <= i64::MAX && 0 <= pos + offset <= usize::MAX
    } else if whence == SEEK_SET {
        0 <= offset <= usize::MAX
    } else if whence == SEEK_END {
        0 <= offset <= file_size
    } else {
        false
    }
}

/// Where `fseek` moves the cursor at `pos`.
pub open spec fn seek_target(pos: usize, offset: i64, whence: i32, file_size: usize) -> int {
    if whence == SEEK_CUR {
        pos + offset
    } else if whence == SEEK_SET {
        offset as int
    } else {
        file_size - offset
    }
}

/// Whether [`fseek`] can move the cursor of `f` by `offset` from `whence`: the target
/// position is a valid offset, and `whence` one of the three the C library defines.
pub fn seek_allowed(f: &File, offset: i64, whence: i32, file_size: usize) -> (r: bool)
    ensures
        r == match *f {
            File::Stdout => true,
            File::File(c) => seek_ok(c.pos, offset, whence, file_size),
        },
{
    match f {
        File::Stdout => true,
        File::File(c) => {
            if whence == SEEK_CUR {
                if c.pos as u64 > i64::MAX as u64 {
                    return false;
                }
                let pos_i = c.pos as i64;
                match pos_i.checked_add(offset) {
                    Some(t) => t >= 0 && t as u64 <= usize::MAX as u64,
                    None => false,
                }
            } else if whence == SEEK_SET {
                offset >= 0 && offset as u64 <= usize::MAX as u64
            } else if whence == SEEK_END {
                offset >= 0 && offset as u64 <= file_size as u64
            } else {
                false
            }
        },
    }
}

/// Moves the cursor of `f`, a file of `file_size` bytes; 0 on success, -1 for standard
/// output, which has no position.
pub fn fseek(f: &mut File, offset: i64, whence: i32, file_size: usize) -> (r: i32)
    requires
        match *old(f) {
            File::Stdout => true,
            File::File(c) => seek_ok(c.pos, offset, whence, file_size),
        },
    ensures
        match *old(f) {
            File::Stdout => r == -1 && *final(f) is Stdout,
            File::File(c) => {
                &&& r == 0
                &&& *final(f) matches File::File(c2) && c2.pos == seek_target(
                    c.pos,
                    offset,
                    whence,
                    file_size,
                )
            },
        },
{
    match f {
        File::File(cursor) => {
            if whence == SEEK_CUR {
                let pos_i = cursor.pos as i64;
                cursor.pos = (pos_i + offset) as usize;
                0
            } else if whence == SEEK_SET {
                cursor.pos = offset as usize;
                0
            } else {
                cursor.pos = file_size - offset as usize;
                0
            }
        },
        File::Stdout => -1,
    }
}

/// The position of the cursor of `f`, -1 for standard output.
pub fn ftell(f: &File) -> (r: i64)
    requires
        *f matches File::File(c) ==> c.pos <= i64::MAX,
    ensures
        match *f {
            File::Stdout => r == -1,
            File::File(c) => r == c.pos,
        },
{
    match f {
        File::File(cursor) => cursor.pos as i64,
        File::Stdout => -1,
    }
}

/// Reads up to `nmemb` items of `size` bytes from `f`, whose contents are `data`:
/// returns the bytes read, which stop at the end of the file, and the number of whole
/// items among them. Standard output reads nothing.
pub fn fread(f: &mut File, data: &[u8], size: usize, nmemb: usize) -> (r: (Vec<u8>, usize))
    requires
        *old(f) matches File::File(c) ==> size > 0 && size * nmemb <= usize::MAX && c.pos
            + size * nmemb <= usize::MAX && c.pos <= data@.len(),
    ensures
        match *old(f) {
            File::Stdout => r.0@.len() == 0 && r.1 == 0 && *final(f) is Stdout,
            File::File(c) => {
                let end = if c.pos + size * nmemb <= data@.len() {
                    c.pos + size * nmemb
                } else {
                    data@.len() as int
                };
                &&& r.0@ == data@.subrange(c.pos as int, end)
                &&& r.1 == (end - c.pos) / (size as int)
                &&& *final(f) matches File::File(c2) && c2.pos == end
            },
        },
{
    match f {
        File::File(cursor) => {
            let size_bytes = size * nmemb;
            let end_pos = if cursor.pos + size_bytes <= data.len() {
                cursor.pos + size_bytes
            } else {
                data.len()
            };
            let ret = (end_pos - cursor.pos) / size;
            let bytes = slice_copy(data, cursor.pos, end_pos);
            cursor.pos = end_pos;
            (bytes, ret)
        },
        File::Stdout => (Vec::new(), 0),
    }
}

/// The number a digit character stands for: `0`-`9` and `a`-`f`.
pub open spec fn digit_value(c: u8) -> int {
    if 48 <= c <= 57 {
        c - 48
    } else {
        c - 87
    }
}

/// Whether `c` is a digit of `base`, written `0`-`9` then `a`-`f`.
pub open spec fn is_digit_of(c: u8, base: nat) -> bool {
    (48 <= c <= 57 || 97 <= c <= 102) && digit_value(c) < base
}

/// The number the digit characters `s` stand for in `base`, most significant first.
pub open spec fn value_of_digits(s: Seq<u8>, base: nat) -> int
    decreases s.len(),
{
    if s.len() == 0 {
        0
    } else {
        value_of_digits(s.drop_last(), base) * base + digit_value(s.last())
    }
}

/// The digits of `n` are digits of `base`, read back as `n`, with no leading zero.
proof fn lemma_digits_read_back(n: nat, base: nat)
    requires
        2 <= base <= 16,
    ensures
        digits(n, base).len() >= 1,
        forall|i: int| 0 <= i < digits(n, base).len() ==> is_digit_of(#[trigger] digits(n, base)[i], base),
        value_of_digits(digits(n, base), base) == n,
        digits(n, base).len() > 1 ==> digits(n, base)[0] != 48,
        n >= base ==> digits(n, base).len() > 1,
    decreases n,
{
    let d = digits(n, base);
    if n < base {
        assert(d == seq![digit_char(n)]);
        assert(d.drop_last() =~= Seq::<u8>::empty());
        assert(value_of_digits(d, base) == value_of_digits(d.drop_last(), base) * base
            + digit_value(d.last()));
        assert(0 * base == 0) by (nonlinear_arith);
    } else {
        vstd::arithmetic::div_mod::lemma_div_decreases(n as int, base as int);
        lemma_digits_read_back(n / base, base);
        let q = digits(n / base, base);
        let r = n % base;
        assert(d == q.push(digit_char(r)));
        assert(d.drop_last() =~= q);
        vstd::arithmetic::div_mod::lemma_fundamental_div_mod(n as int, base as int);
        assert(n / base >= 1) by {
            vstd::arithmetic::div_mod::lemma_div_non_zero(n as int, base as int);
        }
        assert(r < base);
        assert(digit_value(digit_char(r)) == r);
        assert(value_of_digits(d, base) == value_of_digits(q, base) * base + r);
        assert((n / base) * base == base * (n / base)) by (nonlinear_arith);
        assert forall|i: int| 0 <= i < d.len() implies is_digit_of(#[trigger] d[i], base) by {
            if i < q.len() {
                assert(d[i] == q[i]);
            }
        }
        if n / base < base {
            assert(q == seq![digit_char(n / base)]);
        }
        assert(d[0] == q[0]);
    }
}

/// A sequence with a NUL has a first one.
proof fn lemma_has_c_len(s: Seq<u8>, k: int)
    requires
        0 <= k < s.len(),
        s[k] == 0,
    ensures
        is_c_len(s, c_len(s)),
    decreases k,
{
    if exists|j: int| 0 <= j < k && s[j] == 0 {
        let j = choose|j: int| 0 <= j < k && s[j] == 0;
        lemma_has_c_len(s, j);
    } else {
        assert(is_c_len(s, k));
    }
}

/// `%d` prints an `int` in decimal: a minus sign exactly when it is negative, then
/// decimal digits without leading zeros that read back as its magnitude; a
/// precision only adds zeros in front.
pub proof fn law_decimal_rendering(v: i32, precision: Option<u32>)
    ensures
        ({
            let plain = rendered(Format::Int, None, PrintfArg::Int(v));
            let magnitude = if v < 0 {
                plain.drop_first()
            } else {
                plain
            };
            &&& plain.len() >= 1
            &&& (plain[0] == 45) <==> v < 0
            &&& magnitude.len() >= 1
            &&& forall|i: int| 0 <= i < magnitude.len() ==> 48 <= #[trigger] magnitude[i] <= 57
            &&& value_of_digits(magnitude, 10) == if v < 0 {
                -v
            } else {
                v as int
            }
            &&& magnitude.len() > 1 ==> magnitude[0] != 48
        }),
        ({
            let plain = rendered(Format::Int, None, PrintfArg::Int(v));
            let out = rendered(Format::Int, precision, PrintfArg::Int(v));
            &&& out.len() >= plain.len()
            &&& out.subrange(out.len() - plain.len(), out.len() as int) == plain
            &&& forall|i: int| 0 <= i < out.len() - plain.len() ==> #[trigger] out[i] == 48
        }),
{
    let m: nat = if v < 0 {
        (-v) as nat
    } else {
        v as nat
    };
    lemma_digits_read_back(m, 10);
    let d = digits(m, 10);
    let plain = rendered(Format::Int, None, PrintfArg::Int(v));
    if v < 0 {
        assert(plain == seq![45u8] + d);
        assert(plain.drop_first() =~= d);
    } else {
        assert(plain == d);
        assert(is_digit_of(d[0], 10));
    }
    assert forall|i: int| 0 <= i < d.len() implies 48 <= #[trigger] d[i] <= 57 by {
        assert(is_digit_of(d[i], 10));
    }
    let out = rendered(Format::Int, precision, PrintfArg::Int(v));
    assert(out.subrange(out.len() - plain.len(), out.len() as int) =~= plain);
}

/// `%x` and `%o` print an `int` as its 32 bit two's complement in hexadecimal or octal:
/// digits of the base without leading zeros that read back as that number.
pub proof fn law_hex_octal_rendering(v: i32)
    ensures
        ({
            let hex = rendered(Format::Hex, None, PrintfArg::Int(v));
            &&& hex.len() >= 1
            &&& forall|i: int| 0 <= i < hex.len() ==> is_digit_of(#[trigger] hex[i], 16)
            &&& value_of_digits(hex, 16) == v as u32
            &&& hex.len() > 1 ==> hex[0] != 48
        }),
        ({
            let oct = rendered(Format::Octal, None, PrintfArg::Int(v));
            &&& oct.len() >= 1
            &&& forall|i: int| 0 <= i < oct.len() ==> is_digit_of(#[trigger] oct[i], 8)
            &&& value_of_digits(oct, 8) == v as u32
            &&& oct.len() > 1 ==> oct[0] != 48
        }),
{
    lemma_digits_read_back(v as u32 as nat, 16);
    lemma_digits_read_back(v as u32 as nat, 8);
}

/// Comparing ignoring case treats each ASCII letter and its other case as equal:
/// `strncasecmp` of a C string and any copy of it in which letters `A`-`Z` and
/// `a`-`z` may have their case changed (by 32) is 0, whatever `n`.
pub proof fn law_strncasecmp_ignores_case(s1: Seq<u8>, s2: Seq<u8>, n: usize)
    requires
        has_nul(s1),
        s2.len() == s1.len(),
        forall|i: int|
            0 <= i < s1.len() ==> {
                ||| #[trigger] s2[i] == s1[i]
                ||| 65 <= s1[i] <= 90 && s2[i] == s1[i] + 32
                ||| 97 <= s1[i] <= 122 && s2[i] == s1[i] - 32
            },
    ensures
        has_nul(s2),
        str_compare(lowered(s1), lowered(s2), capped_c_len(s1, n), capped_c_len(s2, n)) == 0,
{
    let k = choose|i: int| 0 <= i < s1.len() && s1[i] == 0;
    assert(s2[k] == s1[k]);
    lemma_has_c_len(s1, k);
    let l = c_len(s1);
    assert(is_c_len(s2, l)) by {
        assert(s2[l] == s1[l]);
        assert forall|j: int| 0 <= j < l implies s2[j] != 0 by {
            assert(s1[j] != 0);
            assert(s2[j] == s1[j] || 65 <= s1[j] <= 90 && s2[j] == s1[j] + 32 || 97 <= s1[j] <= 122
                && s2[j] == s1[j] - 32);
        }
    }
    lemma_c_len(s2, l);
    assert(lowered(s1) =~= lowered(s2)) by {
        assert forall|j: int| 0 <= j < l implies ascii_lower(s1[j]) == ascii_lower(s2[j]) by {
            assert(s2[j] == s1[j] || 65 <= s1[j] <= 90 && s2[j] == s1[j] + 32 || 97 <= s1[j] <= 122
                && s2[j] == s1[j] - 32);
        }
    }
    let m = capped_c_len(s1, n);
    assert(!exists|i: int| 0 <= i < m && lowered(s1)[i] != lowered(s2)[i]);
}

} // verus!
